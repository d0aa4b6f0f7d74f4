//! The decisions of the redirect loop: after each response, whether to hand it back, to send
//! the request again to the URL that its `Location` header gives, or to fail.

use url::Url;
use vstd::prelude::*;
use crate::compressed_reader::Method;
use crate::error::{ClientError, ErrorKind, InvalidResponseKind};

verus! {

/// The URL that `location`, read as UTF-8 text, resolves to against the URL `base`; `None`
/// where it does not resolve to a valid URL.
pub uninterp spec fn joined_url(base: Seq<char>, location: Seq<u8>) -> Option<Seq<char>>;

/// Whether a text is a URL that the parser accepts.
pub uninterp spec fn url_accepted(url: Seq<char>) -> bool;

/// Calls `url::Url::parse` on the text. It succeeds exactly where the text is a URL that
/// the parser accepts, which `url_accepted` names.
#[verifier::external_body]
fn url_parses(url: &str) -> (r: bool)
    ensures
        r == url_accepted(url@),
{
    Url::parse(url).is_ok()
}

/// Resolves `location` with `url::Url::join` against `base`, a URL that `url::Url::parse`
/// accepts. The result is the URL that `joined_url` names for the two, or `None` where it
/// names none.
#[verifier::external_body]
fn join_url(base: &str, location: &[u8]) -> (r: Option<String>)
    requires
        url_accepted(base@),
    ensures
        match r {
            Some(u) => joined_url(base@, location@) == Some(u@),
            None => joined_url(base@, location@).is_none(),
        },
{
    let text = std::str::from_utf8(location).ok()?;
    Url::parse(base).ok()?.join(text).ok().map(String::from)
}

/// How many redirections are followed where the caller sets no other limit.
pub const DEFAULT_MAX_REDIRECTIONS: u32 = 5;

/// Visible ASCII or a tab.
pub open spec fn is_text_byte(b: u8) -> bool {
    (32 <= b && b < 127) || b == 9
}

/// A header value that can be read as text: not empty, and made of visible ASCII and tabs.
pub open spec fn is_header_text(v: Seq<u8>) -> bool {
    v.len() > 0 && forall|i: int| 0 <= i < v.len() ==> is_text_byte(#[trigger] v[i])
}

/// Whether a status code is a redirection.
pub open spec fn is_redirection(status: u16) -> bool {
    300 <= status && status < 400
}

/// What the loop does after a response.
pub enum Verdict {
    /// Hand the response to the caller.
    Return,
    /// Send the request again, to this URL.
    Follow(Seq<char>),
    /// Fail: the response cannot be followed.
    Invalid(InvalidResponseKind),
    /// Fail: the URL of the request is no valid URL to resolve against.
    InvalidBaseUrl,
    /// Fail: the budget is used up.
    TooManyRedirections,
}

/// The decision after a response with this status and `Location` value, where `joined` is
/// the URL that the value resolves to. A response is handed back when following is switched
/// off, when it is no redirection, or when it is a redirection without a `Location`.
/// Otherwise the value must be text, the URL of the request must be valid (`base_ok`), the
/// value must resolve against it, and one unit of budget must be left.
pub open spec fn verdict(
    follow: bool,
    remaining: u32,
    status: u16,
    location: Option<Seq<u8>>,
    base_ok: bool,
    joined: Option<Seq<char>>,
) -> Verdict {
    if !follow || !is_redirection(status) {
        Verdict::Return
    } else {
        match location {
            None => Verdict::Return,
            Some(value) => if !is_header_text(value) {
                Verdict::Invalid(InvalidResponseKind::LocationHeader)
            } else if !base_ok {
                Verdict::InvalidBaseUrl
            } else {
                match joined {
                    None => Verdict::Invalid(InvalidResponseKind::RedirectionUrl),
                    Some(url) => if remaining == 0 {
                        Verdict::TooManyRedirections
                    } else {
                        Verdict::Follow(url)
                    },
                }
            },
        }
    }
}

/// The view of an optional byte string.
pub open spec fn bytes_view(o: Option<&[u8]>) -> Option<Seq<u8>> {
    match o {
        Some(v) => Some(v@),
        None => None,
    }
}

/// The view of an optional string.
pub open spec fn string_view(o: Option<String>) -> Option<Seq<char>> {
    match o {
        Some(v) => Some(v@),
        None => None,
    }
}

/// The URL that a `Location` value resolves to against `base`, where there is a value.
pub open spec fn resolved(base: Seq<char>, location: Option<Seq<u8>>) -> Option<Seq<char>> {
    match location {
        Some(value) => joined_url(base, value),
        None => None,
    }
}

/// A decision of the redirect loop.
#[derive(Debug)]
pub enum Decision {
    /// Hand the response to the caller.
    Return,
    /// Send the request again, to this URL.
    Follow(String),
    /// Fail: the response cannot be followed.
    Invalid(InvalidResponseKind),
    /// Fail: the URL of the request is no valid URL to resolve against.
    InvalidBaseUrl,
    /// Fail: the budget is used up.
    TooManyRedirections,
}

impl View for Decision {
    type V = Verdict;

    open spec fn view(&self) -> Verdict {
        match self {
            Decision::Return => Verdict::Return,
            Decision::Follow(url) => Verdict::Follow(url@),
            Decision::Invalid(kind) => Verdict::Invalid(*kind),
            Decision::InvalidBaseUrl => Verdict::InvalidBaseUrl,
            Decision::TooManyRedirections => Verdict::TooManyRedirections,
        }
    }
}

/// What the caller of the loop does next.
#[derive(Debug)]
pub enum Action {
    /// Hand the response to the caller.
    Return,
    /// Send the request again, with the same method, to this URL.
    Send(String),
}

/// The state of one redirect sequence.
#[derive(Debug)]
pub struct RedirectState {
    /// The method of the request, the same on every hop.
    pub method: Method,
    /// The URL of the request that was sent last.
    pub url: String,
    /// How many more redirections may be followed.
    pub remaining: u32,
    /// Whether redirections are followed at all.
    pub follow: bool,
}

/// Whether a header value can be read as text.
pub fn header_text(value: &[u8]) -> (r: bool)
    ensures
        r == is_header_text(value@),
{
    if value.len() == 0 {
        return false;
    }
    let mut i: usize = 0;
    while i < value.len()
        invariant
            i <= value@.len(),
            forall|j: int| 0 <= j < i ==> is_text_byte(#[trigger] value@[j]),
        decreases value@.len() - i,
    {
        let b = value[i];
        if !((32 <= b && b < 127) || b == 9) {
            return false;
        }
        i += 1;
    }
    true
}

/// Decides what follows a response, given whether the URL of the request is valid and the
/// URL that the response's `Location` value resolves to.
pub fn decide(
    follow: bool,
    remaining: u32,
    status: u16,
    location: Option<&[u8]>,
    base_ok: bool,
    joined: Option<String>,
) -> (r: Decision)
    ensures
        r@ == verdict(
            follow,
            remaining,
            status,
            bytes_view(location),
            base_ok,
            string_view(joined),
        ),
{
    if !follow || status < 300 || status >= 400 {
        return Decision::Return;
    }
    match location {
        None => Decision::Return,
        Some(value) => {
            if !header_text(value) {
                return Decision::Invalid(InvalidResponseKind::LocationHeader);
            }
            if !base_ok {
                return Decision::InvalidBaseUrl;
            }
            match joined {
                None => Decision::Invalid(InvalidResponseKind::RedirectionUrl),
                Some(url) => {
                    if remaining == 0 {
                        Decision::TooManyRedirections
                    } else {
                        Decision::Follow(url)
                    }
                },
            }
        },
    }
}

impl RedirectState {
    /// Starts a redirect sequence. CONNECT is refused before anything is sent, and so is a
    /// URL that is no valid URL.
    pub fn start(method: Method, url: String, max_redirections: u32, follow_redirects: bool) -> (r:
        Result<RedirectState, ClientError>)
        ensures
            match r {
                Ok(state) => method != Method::Connect && url_accepted(url@) && state == (
                RedirectState {
                    method,
                    url,
                    remaining: max_redirections,
                    follow: follow_redirects,
                }),
                Err(e) => if method == Method::Connect {
                    *e.0 is ConnectNotSupported
                } else {
                    !url_accepted(url@) && *e.0 is InvalidBaseUrl
                },
            },
    {
        if method == Method::Connect {
            Err(ClientError::from(ErrorKind::ConnectNotSupported))
        } else if !url_parses(url.as_str()) {
            Err(ClientError::from(ErrorKind::InvalidBaseUrl))
        } else {
            Ok(RedirectState { method, url, remaining: max_redirections, follow: follow_redirects })
        }
    }

    /// Takes the status and the `Location` value of the response to the request that was
    /// sent last, and says what to do next. Following a redirection moves the state to the
    /// resolved URL and uses up one unit of budget; anything else leaves the state as it was.
    pub fn on_response(&mut self, status: u16, location: Option<&[u8]>) -> (r: Result<
        Action,
        ClientError,
    >)
        ensures
            final(self).method == old(self).method,
            final(self).follow == old(self).follow,
            match verdict(
                old(self).follow,
                old(self).remaining,
                status,
                bytes_view(location),
                url_accepted(old(self).url@),
                resolved(old(self).url@, bytes_view(location)),
            ) {
                Verdict::Return => r matches Ok(Action::Return) && *final(self) == *old(self),
                Verdict::Follow(url) => {
                    &&& r matches Ok(Action::Send(next)) && next@ == url
                    &&& final(self).url@ == url
                    &&& final(self).remaining == old(self).remaining - 1
                },
                Verdict::Invalid(kind) => {
                    &&& r matches Err(e) && *e.0 == ErrorKind::InvalidResponse(kind)
                    &&& *final(self) == *old(self)
                },
                Verdict::InvalidBaseUrl => {
                    &&& r matches Err(e) && *e.0 is InvalidBaseUrl
                    &&& *final(self) == *old(self)
                },
                Verdict::TooManyRedirections => {
                    &&& r matches Err(e) && *e.0 is TooManyRedirections
                    &&& *final(self) == *old(self)
                },
            },
    {
        let asked = match location {
            Some(value) => self.follow && 300 <= status && status < 400 && header_text(value),
            None => false,
        };
        let base_ok = !asked || url_parses(self.url.as_str());
        let joined = match location {
            Some(value) => {
                if asked && base_ok {
                    join_url(self.url.as_str(), value)
                } else {
                    None
                }
            },
            None => None,
        };
        match decide(self.follow, self.remaining, status, location, base_ok, joined) {
            Decision::Return => Ok(Action::Return),
            Decision::Follow(url) => {
                self.url = url.clone();
                self.remaining = self.remaining - 1;
                Ok(Action::Send(url))
            },
            Decision::Invalid(kind) => Err(ClientError::from(kind)),
            Decision::InvalidBaseUrl => Err(ClientError::from(ErrorKind::InvalidBaseUrl)),
            Decision::TooManyRedirections => Err(
                ClientError::from(ErrorKind::TooManyRedirections),
            ),
        }
    }
}

/// One response in a redirect sequence: its status, its `Location` value, whether the URL
/// of its request is valid, and the URL that the value resolves to.
pub struct Hop {
    pub status: u16,
    pub location: Option<Seq<u8>>,
    pub base_ok: bool,
    pub joined: Option<Seq<char>>,
}

impl Hop {
    /// A redirection with a `Location` value that is text and resolves.
    pub open spec fn redirects(self) -> bool {
        &&& is_redirection(self.status)
        &&& self.location is Some
        &&& is_header_text(self.location.unwrap())
        &&& self.base_ok
        &&& self.joined is Some
    }
}

/// The decision on the last of a sequence of responses, each the answer to the request that
/// the decision on the one before it caused; the first decision that does not follow ends
/// the sequence.
pub open spec fn last_verdict(follow: bool, remaining: u32, hops: Seq<Hop>) -> Verdict
    decreases hops.len(),
{
    if hops.len() == 0 {
        Verdict::Return
    } else {
        let first = verdict(follow, remaining, hops[0].status, hops[0].location, hops[0].base_ok, hops[0].joined);
        if hops.len() == 1 {
            first
        } else {
            match first {
                Verdict::Follow(_) => last_verdict(
                    follow,
                    (remaining - 1) as u32,
                    hops.drop_first(),
                ),
                _ => first,
            }
        }
    }
}

/// With following switched off every response is handed back, whatever its status and
/// headers.
pub proof fn lemma_not_following_returns(
    remaining: u32,
    status: u16,
    location: Option<Seq<u8>>,
    base_ok: bool,
    joined: Option<Seq<char>>,
)
    ensures
        verdict(false, remaining, status, location, base_ok, joined) == Verdict::Return,
{
}

/// A redirection whose `Location` resolves is followed to the resolved URL while budget is
/// left, and fails once the budget is used up.
pub proof fn lemma_redirect_step(remaining: u32, hop: Hop)
    requires
        hop.redirects(),
    ensures
        remaining > 0 ==> verdict(true, remaining, hop.status, hop.location, hop.base_ok, hop.joined)
            == Verdict::Follow(hop.joined.unwrap()),
        remaining == 0 ==> verdict(true, remaining, hop.status, hop.location, hop.base_ok, hop.joined)
            == Verdict::TooManyRedirections,
{
}

/// A sequence of redirections followed by one response that is no redirection ends with
/// that response handed back if the budget is at least the number of redirections, and in
/// the failure for too many redirections if it is less.
pub proof fn lemma_redirect_budget(remaining: u32, hops: Seq<Hop>, last: Hop)
    requires
        forall|i: int| 0 <= i < hops.len() ==> (#[trigger] hops[i]).redirects(),
        !is_redirection(last.status),
    ensures
        hops.len() <= remaining ==> last_verdict(true, remaining, hops.push(last))
            == Verdict::Return,
        hops.len() > remaining ==> last_verdict(true, remaining, hops.push(last))
            == Verdict::TooManyRedirections,
    decreases hops.len(),
{
    let all = hops.push(last);
    if hops.len() == 0 {
        assert(all.len() == 1);
        assert(all[0] == last);
    } else {
        assert(all[0] == hops[0]);
        assert(hops[0].redirects());
        lemma_redirect_step(remaining, hops[0]);
        assert(all.drop_first() =~= hops.drop_first().push(last));
        if remaining > 0 {
            assert forall|i: int| 0 <= i < hops.drop_first().len() implies (
            #[trigger] hops.drop_first()[i]).redirects() by {
                assert(hops.drop_first()[i] == hops[i + 1]);
            }
            lemma_redirect_budget((remaining - 1) as u32, hops.drop_first(), last);
        }
    }
}

} // verus!
