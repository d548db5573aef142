//! The bearer token of the typing.com teacher API: when the cached one can
//! be used, how a fresh one is asked for, and how long it is kept.
use vstd::prelude::*;

use base64::{prelude::BASE64_URL_SAFE_NO_PAD, Engine};

use crate::json::{get_u64, pointer_str, Json, JsonNumber, JsonView, NumberView};
use crate::secrets::{load_password, SecretError, SecretService};
use crate::timestamp::Timestamp;

verus! {

/// `base64::DecodeError`, carried opaque.
#[verifier::external_type_specification]
#[verifier::external_body]
pub struct ExDecodeError(base64::DecodeError);

/// Why no bearer token could be had.
#[derive(Debug)]
pub enum AuthError {
    /// The login request could not be sent, or its answer read.
    Request(reqwest::Error),
    /// The password could not be read from the keyring.
    Secret(SecretError),
    /// The answer lacks the member `field`; `json` is the whole answer.
    MissingJsonField { field: String, json: Json },
}

/// Where a teacher logs in.
pub const LOGIN_URL: &'static str = "https://api.typing.com/teachers/auth/login";

/// How long a token is kept when its own expiry cannot be read: one hour.
pub const FALLBACK_LIFETIME_SECS: u64 = 3600;

/// How long before its expiry a token is given up: one minute.
pub const EXPIRY_MARGIN_SECS: u64 = 60;

/// The cached bearer token and the instant from which it is no longer used.
#[derive(Debug)]
pub struct Token {
    value: String,
    expiration: Timestamp,
}

/// What a [`Token`] holds.
pub struct TokenView {
    pub value: Seq<char>,
    pub expiration: Timestamp,
}

impl TokenView {
    /// The token may still be used at `now`: there is one (it is not
    /// empty) and it has not expired.
    pub open spec fn fresh_at(self, now: Timestamp) -> bool {
        self.value.len() > 0 && now.since_epoch() < self.expiration.since_epoch()
    }

    /// The cache after a fresh token `value`, valid until `expiration`, was
    /// offered at `now`: a cache that is still fresh is kept, since another
    /// task has refreshed it meanwhile; an expired or empty one is replaced.
    pub open spec fn stored(self, now: Timestamp, value: Seq<char>, expiration: Timestamp) -> TokenView {
        if self.fresh_at(now) {
            self
        } else {
            TokenView { value, expiration }
        }
    }
}

impl View for Token {
    type V = TokenView;

    closed spec fn view(&self) -> TokenView {
        TokenView { value: self.value@, expiration: self.expiration }
    }
}

impl Token {
    /// An empty token that expired at the epoch, so that the first use
    /// refreshes it.
    pub fn new() -> (t: Token)
        ensures
            t@.value == Seq::<char>::empty(),
            t@.expiration.since_epoch() == 0,
            forall|now: Timestamp| !t@.fresh_at(now),
    {
        Token { value: String::new(), expiration: Timestamp::unix_epoch() }
    }

    /// The cached token, when it may still be used at `now`: a token that
    /// is expired, or empty, is not.
    pub fn cached(&self, now: &Timestamp) -> (r: Option<String>)
        ensures
            r is Some <==> self@.fresh_at(*now),
            r matches Some(v) ==> v@ == self@.value,
    {
        if now.before(&self.expiration) && !self.value.as_str().is_empty() {
            Some(self.value.clone())
        } else {
            None
        }
    }

    /// Offers the fresh token `value`, valid until `expiration`, at `now`
    /// (see [`TokenView::stored`]); the token in the cache afterwards.
    pub fn store(&mut self, now: &Timestamp, value: String, expiration: Timestamp) -> (r: String)
        ensures
            final(self)@ == old(self)@.stored(*now, value@, expiration),
            r@ == final(self)@.value,
    {
        if !now.before(&self.expiration) || self.value.as_str().is_empty() {
            self.value = value;
            self.expiration = expiration;
        }
        self.value.clone()
    }

    /// The instant from which the cached token is no longer used.
    pub fn expiration(&self) -> (r: Timestamp)
        ensures
            r == self@.expiration,
    {
        self.expiration
    }
}

/// What getting a bearer token takes next.
#[derive(Debug)]
pub enum TokenStep {
    /// The cached token may be used: here it is.
    Cached(String),
    /// A fresh token must be asked for, by sending this login request body.
    Login(Json),
}

/// The view of the login request body for `teacher_id` and `password`.
pub open spec fn login_body_view(teacher_id: u64, password: Seq<char>) -> JsonView {
    JsonView::Object(
        seq![
            ("login_type"@, JsonView::Str("username"@)),
            ("password"@, JsonView::Str(password)),
            ("teacher_id"@, JsonView::Number(NumberView::PosInt(teacher_id))),
        ],
    )
}

/// What getting a bearer token takes next once the keyring was asked for
/// the password: the login request of `teacher_id` with that password, or
/// the keyring's error.
pub fn login_step(loaded: Result<String, SecretError>, teacher_id: u64) -> (r: Result<
    TokenStep,
    AuthError,
>)
    ensures
        match loaded {
            Ok(password) => r matches Ok(TokenStep::Login(body)) && body@ == login_body_view(
                teacher_id,
                password@,
            ),
            Err(e) => r matches Err(AuthError::Secret(s)) && s == e,
        },
{
    match loaded {
        Ok(password) => {
            let ghost pw = password@;
            let body = login_body(teacher_id, password);
            assert(body@ == login_body_view(teacher_id, pw));
            Ok(TokenStep::Login(body))
        },
        Err(e) => Err(AuthError::Secret(e)),
    }
}

/// The first step of getting a bearer token, given what the cache offered
/// (see [`Token::cached`]): the cached token when there is one; otherwise
/// the login request of `teacher_id`, with the password that the keyring
/// keeps for `username` (see [`login_step`]).
pub fn begin_refresh(cached: Option<String>, username: &str, teacher_id: u64) -> (r: Result<
    TokenStep,
    AuthError,
>)
    ensures
        match cached {
            Some(v) => r matches Ok(TokenStep::Cached(t)) && t@ == v@,
            None => match r {
                Ok(TokenStep::Login(body)) => exists|password: Seq<char>|
                    body@ == login_body_view(teacher_id, password),
                Ok(TokenStep::Cached(_)) => false,
                Err(AuthError::Secret(SecretError::EntryCreate(_))) => true,
                Err(AuthError::Secret(SecretError::LoadPassword { service, username: u, .. })) =>
                    service@ == SecretService::TypingCom.name() && u@ == username@,
                Err(_) => false,
            },
        },
{
    match cached {
        Some(value) => Ok(TokenStep::Cached(value)),
        None => login_step(load_password(SecretService::TypingCom, username), teacher_id),
    }
}

/// The body of the login request:
/// `{"login_type": "username", "password": .., "teacher_id": ..}`.
pub fn login_body(teacher_id: u64, password: String) -> (body: Json)
    ensures
        body@ == login_body_view(teacher_id, password@),
{
    let ghost pw = password@;
    let body = Json::Object(
        vec![
            ("login_type".to_owned(), Json::Str("username".to_owned())),
            ("password".to_owned(), Json::Str(password)),
            ("teacher_id".to_owned(), Json::Number(JsonNumber::PosInt(teacher_id))),
        ],
    );
    proof {
        reveal_with_fuel(<Json as View>::view, 2);
        assert(body@->Object_0 =~= seq![
            ("login_type"@, JsonView::Str("username"@)),
            ("password"@, JsonView::Str(pw)),
            ("teacher_id"@, JsonView::Number(NumberView::PosInt(teacher_id))),
        ]);
    }
    body
}

/// The token in the answer to the login request: `/data/access_token`.
pub fn access_token(response: Json) -> (r: Result<String, AuthError>)
    ensures
        match pointer_str(response@, "/data/access_token"@) {
            Some(t) => r matches Ok(token) && token@ == t,
            None => r matches Err(AuthError::MissingJsonField { field, json }) && field@
                == "access_token"@ && json@ == response@,
        },
{
    let token = match response.pointer("/data/access_token") {
        Some(v) => match v.as_str() {
            Some(s) => Some(s.clone()),
            None => None,
        },
        None => None,
    };
    match token {
        Some(t) => Ok(t),
        None => Err(
            AuthError::MissingJsonField { field: "access_token".to_owned(), json: response },
        ),
    }
}

/// `d` is the first `.` of `s` at or after `from`.
pub open spec fn first_dot_from(s: Seq<char>, from: int, d: int) -> bool {
    &&& from <= d < s.len()
    &&& s[d] == '.'
    &&& forall|k: int| from <= k < d ==> s[k] != '.'
}

/// Where the segment of `s` that starts at `from` ends: at the next `.`,
/// or at the end of `s`.
pub open spec fn segment_end(s: Seq<char>, from: int) -> int {
    if exists|d: int| first_dot_from(s, from, d) {
        choose|d: int| first_dot_from(s, from, d)
    } else {
        s.len() as int
    }
}

/// The second of the `.`-separated segments of `s`; nothing when `s` has no
/// `.`.  For a compact JWT it is the claims, in base64url.
pub open spec fn second_segment(s: Seq<char>) -> Option<Seq<char>> {
    if exists|d: int| first_dot_from(s, 0, d) {
        let d = choose|d: int| first_dot_from(s, 0, d);
        Some(s.subrange(d + 1, segment_end(s, d + 1)))
    } else {
        None
    }
}

proof fn lemma_first_dot_unique(s: Seq<char>, from: int, d1: int, d2: int)
    requires
        first_dot_from(s, from, d1),
        first_dot_from(s, from, d2),
    ensures
        d1 == d2,
{
    if d1 < d2 {
        assert(s[d1] != '.');
    } else if d2 < d1 {
        assert(s[d2] != '.');
    }
}

/// The position of the first `.` of `s` at or after `from`, or the length
/// of `s` when there is none.
fn next_dot(s: &str, len: usize, from: usize) -> (r: usize)
    requires
        len == s@.len(),
        from <= len,
    ensures
        from <= r <= len,
        r < len ==> first_dot_from(s@, from as int, r as int),
        r == len ==> !exists|d: int| first_dot_from(s@, from as int, d),
        r == segment_end(s@, from as int),
{
    let mut i = from;
    while i < len
        invariant
            from <= i <= len,
            len == s@.len(),
            forall|k: int| from <= k < i ==> s@[k] != '.',
        decreases len - i,
    {
        if s.get_char(i) == '.' {
            proof {
                assert(first_dot_from(s@, from as int, i as int));
                let c = choose|d: int| first_dot_from(s@, from as int, d);
                lemma_first_dot_unique(s@, from as int, c, i as int);
            }
            return i;
        }
        i = i + 1;
    }
    i
}

/// The second `.`-separated segment of `jwt` (see [`second_segment`]).
pub fn jwt_claims_segment(jwt: &str) -> (r: Option<&str>)
    ensures
        match r {
            Some(seg) => second_segment(jwt@) == Some(seg@),
            None => second_segment(jwt@) is None,
        },
{
    let len = jwt.unicode_len();
    let first = next_dot(jwt, len, 0);
    if first == len {
        return None;
    }
    let end = next_dot(jwt, len, first + 1);
    proof {
        let c = choose|d: int| first_dot_from(jwt@, 0, d);
        lemma_first_dot_unique(jwt@, 0, c, first as int);
    }
    Some(jwt.substring_char(first + 1, end))
}

/// `base64::engine::general_purpose::URL_SAFE_NO_PAD.decode`, named: the
/// bytes that `input` encodes in base64 with the URL-safe alphabet and no
/// padding, or nothing when it is no such encoding.
pub uninterp spec fn url_safe_no_pad_decode(input: Seq<char>) -> Option<Seq<u8>>;

/// `Engine::decode` of `base64::prelude::BASE64_URL_SAFE_NO_PAD`.  Its
/// result is stated through [`url_safe_no_pad_decode`] only.
#[verifier::external_body]
fn decode_url_safe_no_pad(input: &str) -> (r: Result<Vec<u8>, base64::DecodeError>)
    ensures
        match r {
            Ok(bytes) => url_safe_no_pad_decode(input@) == Some(bytes@),
            Err(_) => url_safe_no_pad_decode(input@) is None,
        },
{
    BASE64_URL_SAFE_NO_PAD.decode(input)
}

/// The claims of the JWT `jwt`, as the JSON text they are: its second
/// segment, decoded from base64url.
pub fn jwt_claims(jwt: &str) -> (r: Option<Vec<u8>>)
    ensures
        match second_segment(jwt@) {
            Some(seg) => match url_safe_no_pad_decode(seg) {
                Some(bytes) => r matches Some(b) && b@ == bytes,
                None => r is None,
            },
            None => r is None,
        },
{
    match jwt_claims_segment(jwt) {
        Some(seg) => match decode_url_safe_no_pad(seg) {
            Ok(bytes) => Some(bytes),
            Err(_) => None,
        },
        None => None,
    }
}

/// The expiry that JWT claims state: `exp`, in seconds since the epoch,
/// when it is an integer and the instant is representable.
pub fn claims_expiration(claims: &Json) -> (r: Option<Timestamp>)
    ensures
        match get_u64(claims@, "exp"@) {
            Some(exp) => if exp <= i64::MAX {
                r matches Some(t) && t.since_epoch() == exp * 1_000_000_000 && t.whole_secs()
                    == exp
            } else {
                r is None
            },
            None => r is None,
        },
{
    let exp = match claims.get("exp") {
        Some(v) => v.as_u64(),
        None => None,
    };
    match exp {
        Some(exp) => Timestamp::from_unix_secs(exp),
        None => None,
    }
}

/// An expiry, as (whole seconds, nanoseconds since the epoch).
pub open spec fn expiry_of(t: Option<Timestamp>) -> Option<(int, int)> {
    match t {
        Some(e) => Some((e.whole_secs(), e.since_epoch())),
        None => None,
    }
}

/// The expiry that JWT claims state (see [`claims_expiration`]), as (whole
/// seconds, nanoseconds since the epoch).
pub open spec fn claims_expiry(claims: Option<JsonView>) -> Option<(int, int)> {
    match claims {
        Some(c) => match get_u64(c, "exp"@) {
            Some(exp) => if exp <= i64::MAX {
                Some((exp as int, exp * 1_000_000_000))
            } else {
                None
            },
            None => None,
        },
        None => None,
    }
}

/// The instant, as (whole seconds, nanoseconds since the epoch), until which
/// a fresh token would be kept before the margin is taken off: its own
/// expiry when known, an hour after `now` otherwise.
pub open spec fn refresh_base(expiry: Option<(int, int)>, now: Timestamp) -> (int, int) {
    match expiry {
        Some(e) => e,
        None => (
            now.whole_secs() + FALLBACK_LIFETIME_SECS,
            now.since_epoch() + FALLBACK_LIFETIME_SECS * 1_000_000_000,
        ),
    }
}

/// When a token fetched at `now` stops being used, as (whole seconds,
/// nanoseconds since the epoch): a minute before [`refresh_base`], unless
/// that instant is not representable, in which case the base itself.
pub open spec fn kept_until(expiry: Option<(int, int)>, now: Timestamp) -> (int, int) {
    let (secs, nanos) = refresh_base(expiry, now);
    if secs - EXPIRY_MARGIN_SECS >= i64::MIN {
        (secs - EXPIRY_MARGIN_SECS, nanos - EXPIRY_MARGIN_SECS * 1_000_000_000)
    } else {
        (secs, nanos)
    }
}

/// When a token fetched at `now`, whose claims state the expiry
/// `jwt_expiration` (if any), stops being used (see [`kept_until`]).
pub fn refreshed_expiration(jwt_expiration: Option<Timestamp>, now: &Timestamp) -> (t: Timestamp)
    requires
        jwt_expiration is None ==> now.whole_secs() + FALLBACK_LIFETIME_SECS <= i64::MAX,
    ensures
        (t.whole_secs(), t.since_epoch()) == kept_until(expiry_of(jwt_expiration), *now),
{
    let base = match jwt_expiration {
        Some(e) => e,
        None => now.add_secs(FALLBACK_LIFETIME_SECS),
    };
    match base.checked_sub_secs(EXPIRY_MARGIN_SECS) {
        Some(t) => t,
        None => base,
    }
}

pub open spec fn claims_view(claims: Option<&Json>) -> Option<JsonView> {
    match claims {
        Some(c) => Some(c@),
        None => None,
    }
}

/// When a token fetched at `now` stops being used, given the claims it
/// carries when they could be read (see [`claims_expiration`] and
/// [`refreshed_expiration`]).
pub fn expiration_for(claims: Option<&Json>, now: &Timestamp) -> (t: Timestamp)
    requires
        claims_expiry(claims_view(claims)) is None ==> now.whole_secs()
            + FALLBACK_LIFETIME_SECS <= i64::MAX,
    ensures
        (t.whole_secs(), t.since_epoch()) == kept_until(claims_expiry(claims_view(claims)), *now),
{
    let exp = match claims {
        Some(c) => claims_expiration(c),
        None => None,
    };
    refreshed_expiration(exp, now)
}

/// A token offered when the cache is stale (expired or empty) is served at
/// every later instant before its expiration, unless it is empty itself.
pub proof fn lemma_refreshed_token_is_served(
    cache: TokenView,
    now: Timestamp,
    value: Seq<char>,
    expiration: Timestamp,
    later: Timestamp,
)
    requires
        !cache.fresh_at(now),
        value.len() > 0,
        later.since_epoch() < expiration.since_epoch(),
    ensures
        cache.stored(now, value, expiration).fresh_at(later),
        cache.stored(now, value, expiration).value == value,
{
}

/// An empty token is never served: whatever its expiry, a fresh one is
/// asked for.
pub proof fn lemma_empty_token_is_not_served(cache: TokenView, now: Timestamp)
    requires
        cache.value.len() == 0,
    ensures
        !cache.fresh_at(now),
{
}

/// A cache that is still fresh is not replaced: the token that another
/// task fetched stays, and is the one served.
pub proof fn lemma_fresh_cache_is_kept(
    cache: TokenView,
    now: Timestamp,
    value: Seq<char>,
    expiration: Timestamp,
)
    requires
        cache.fresh_at(now),
    ensures
        cache.stored(now, value, expiration) == cache,
{
}

/// A token whose claims state its expiry is given up a minute before that
/// expiry: once stored, it is not served at or after that instant.
pub proof fn lemma_token_given_up_before_expiry(
    cache: TokenView,
    now: Timestamp,
    value: Seq<char>,
    jwt_expiration: Timestamp,
    expiration: Timestamp,
    later: Timestamp,
)
    requires
        jwt_expiration.whole_secs() - EXPIRY_MARGIN_SECS >= i64::MIN,
        (expiration.whole_secs(), expiration.since_epoch()) == kept_until(
            expiry_of(Some(jwt_expiration)),
            now,
        ),
        later.since_epoch() >= jwt_expiration.since_epoch() - EXPIRY_MARGIN_SECS * 1_000_000_000,
    ensures
        expiration.since_epoch() < jwt_expiration.since_epoch(),
        !cache.fresh_at(now) ==> !cache.stored(now, value, expiration).fresh_at(later),
{
}

} // verus!
