//! Who may ask: the bearer token, the login cookie, and the sign-in callback.

use vstd::prelude::*;
use vstd::utf8::encode_utf8;

use crate::auth;
use crate::auth::GoogleView;
use crate::auth::{CookieSigner, GoogleAuth, UserInfo};
use crate::outside;
use crate::store;
use crate::store::ApiError;
use crate::store::ErrorView;
use crate::text;

verus! {

// ---------------------------------------------------------------------------
// The token
// ---------------------------------------------------------------------------

/// An `Authorization` header that carries the token.
pub open spec fn bears(header: Option<Seq<char>>, token: Seq<char>) -> bool {
    header == Some("Bearer "@ + token)
}

/// Some `token=` parameter of a query is the token.
pub open spec fn query_has(query: Seq<char>, token: Seq<char>) -> bool
    decreases query.len(),
{
    proof {
        text::lemma_place_of(query, '&');
    }
    let p = text::place_of(query, '&');
    ||| text::cut(query.take(p), '=') == Some(("token"@, token))
    ||| p < query.len() && query_has(query.skip(p + 1), token)
}

/// A request that carries the token, in its header or in its query.
pub open spec fn has_token(
    header: Option<Seq<char>>,
    query: Option<Seq<char>>,
    token: Seq<char>,
) -> bool {
    bears(header, token) || (query is Some && query_has(query->0, token))
}

/// Whether some `token=` parameter of a query is the token.
pub fn query_token_matches(query: &str, token: &str) -> (yes: bool)
    ensures
        yes == query_has(query@, token@),
{
    let chars: Vec<char> = text::chars_of(query);
    let n: usize = chars.len();
    let mut from: usize = 0;
    proof {
        assert(chars@.subrange(0, n as int) =~= query@);
    }
    loop
        invariant
            from <= n == chars@.len(),
            query_has(chars@.subrange(from as int, n as int), token@) == query_has(
                query@,
                token@,
            ),
        decreases n - from,
    {
        let ghost rest = chars@.subrange(from as int, n as int);
        let p: usize = text::find_in(&chars, from, n, '&');
        let pair: String = text::text_range(&chars, from, p);
        assert(pair@ =~= rest.take(p - from));
        if let Some((key, value)) = text::split_once(&pair, '=') {
            if text::same_text(&key, "token") && text::same_text(&value, token) {
                return true;
            }
        }
        if p >= n {
            return false;
        }
        proof {
            assert(rest.skip(p - from + 1) =~= chars@.subrange(p + 1, n as int));
        }
        from = p + 1;
    }
}

/// Whether a request carries the token.
pub fn request_has_token(header: Option<&str>, query: Option<&str>, token: &str) -> (yes: bool)
    ensures
        yes == has_token(auth::opt_str(header), auth::opt_str(query), token@),
{
    let in_header: bool = match header {
        Some(header) => {
            let mut expected: String = "Bearer ".to_string();
            expected.append(token);
            text::same_text(header, &expected)
        },
        None => false,
    };
    let in_query: bool = match query {
        Some(query) => query_token_matches(query, token),
        None => false,
    };
    in_header || in_query
}

// ---------------------------------------------------------------------------
// The login cookie
// ---------------------------------------------------------------------------

/// The email that a `Cookie` header proves.
pub open spec fn signed_in(
    key: Seq<u8>,
    cookies: Option<Seq<char>>,
    now: u64,
) -> Option<Seq<char>> {
    match cookies {
        Some(header) => match auth::cookie_in(header, auth::SESSION_COOKIE@) {
            Some(value) => auth::verified(key, "session"@, value, now),
            None => None,
        },
        None => None,
    }
}

/// The email that a `Cookie` header proves at `now`.
pub fn signed_in_email_at(signer: &CookieSigner, cookies: Option<&str>, now: u64) -> (email: Option<
    String,
>)
    ensures
        text::opt_text(email) == signed_in(signer@, auth::opt_str(cookies), now),
{
    match cookies {
        Some(header) => match auth::cookie_value(header, auth::SESSION_COOKIE) {
            Some(value) => signer.verify_at("session", value, now),
            None => None,
        },
        None => None,
    }
}

/// The email that a `Cookie` header proves.
pub fn signed_in_email(signer: &CookieSigner, cookies: Option<&str>) -> (email: Option<String>)
    ensures
        exists|now: u64|
            text::opt_text(email) == #[trigger] signed_in(signer@, auth::opt_str(cookies), now),
{
    let now: u64 = outside::unix_seconds();
    let email: Option<String> = signed_in_email_at(signer, cookies, now);
    assert(text::opt_text(email) == signed_in(signer@, auth::opt_str(cookies), now));
    email
}

/// A request that is let through: no token is set, or it carries the token,
/// or it carries a login cookie.
pub open spec fn admitted(
    token: Option<Seq<char>>,
    header: Option<Seq<char>>,
    query: Option<Seq<char>>,
    key: Seq<u8>,
    cookies: Option<Seq<char>>,
    now: u64,
) -> bool {
    match token {
        Some(token) => has_token(header, query, token) || signed_in(key, cookies, now) is Some,
        None => true,
    }
}

/// Lets a request through at `now`, or refuses it.
pub fn require_auth_at(
    token: Option<&str>,
    header: Option<&str>,
    query: Option<&str>,
    signer: &CookieSigner,
    cookies: Option<&str>,
    now: u64,
) -> (outcome: Result<(), ApiError>)
    ensures
        match outcome {
            Ok(()) => admitted(
                auth::opt_str(token),
                auth::opt_str(header),
                auth::opt_str(query),
                signer@,
                auth::opt_str(cookies),
                now,
            ),
            Err(error) => {
                &&& !admitted(
                    auth::opt_str(token),
                    auth::opt_str(header),
                    auth::opt_str(query),
                    signer@,
                    auth::opt_str(cookies),
                    now,
                )
                &&& error@ == ErrorView { status: 401, message: "unauthorized"@ }
            },
        },
{
    match token {
        Some(token) => {
            if request_has_token(header, query, token) {
                return Ok(());
            }
            match signed_in_email_at(signer, cookies, now) {
                Some(_) => Ok(()),
                None => Err(ApiError::unauthorized()),
            }
        },
        None => Ok(()),
    }
}

/// Lets a request through, or refuses it.
pub fn require_auth(
    token: Option<&str>,
    header: Option<&str>,
    query: Option<&str>,
    signer: &CookieSigner,
    cookies: Option<&str>,
) -> (outcome: Result<(), ApiError>)
    ensures
        exists|now: u64|
            outcome is Ok == #[trigger] admitted(
                auth::opt_str(token),
                auth::opt_str(header),
                auth::opt_str(query),
                signer@,
                auth::opt_str(cookies),
                now,
            ),
        outcome matches Err(error) ==> error@ == (ErrorView {
            status: 401,
            message: "unauthorized"@,
        }),
{
    let now: u64 = outside::unix_seconds();
    let outcome: Result<(), ApiError> = require_auth_at(token, header, query, signer, cookies, now);
    assert(outcome is Ok == admitted(
        auth::opt_str(token),
        auth::opt_str(header),
        auth::opt_str(query),
        signer@,
        auth::opt_str(cookies),
        now,
    ));
    outcome
}

/// What a cookie value that reads back as a login proves when it is sent
/// alone.
pub proof fn lemma_login_cookie(key: Seq<u8>, email: Seq<char>, value: Seq<char>)
    requires
        auth::cookie_safe(value),
    ensures
        forall|expiry: u64, later: u64|
            #![trigger auth::reads_back(key, "session"@, email, expiry, value), signed_in(
                key,
                Some(auth::SESSION_COOKIE@ + "="@ + value),
                later,
            )]
            auth::reads_back(key, "session"@, email, expiry, value) && later <= expiry
                ==> signed_in(key, Some(auth::SESSION_COOKIE@ + "="@ + value), later) == Some(
                email,
            ),
{
    reveal_strlit("ceilidh_session");
    let name = auth::SESSION_COOKIE@;
    assert forall|i: int| 0 <= i < name.len() implies outside::is_url_safe(#[trigger] name[i]) by {}
    auth::lone_cookie_is_found(name, value);
    assert forall|expiry: u64, later: u64|
        auth::reads_back(key, "session"@, email, expiry, value) && later <= expiry implies signed_in(
        key,
        Some(name + "="@ + value),
        later,
    ) == Some(email) by {
        assert(auth::verified(key, "session"@, value, later) == Some(email));
    }
}

/// A login cookie is as good as the token: whoever sends a cookie that reads
/// back as a login is let through until it expires.
pub proof fn a_login_cookie_admits(
    token: Option<Seq<char>>,
    header: Option<Seq<char>>,
    query: Option<Seq<char>>,
    key: Seq<u8>,
    email: Seq<char>,
    expiry: u64,
    value: Seq<char>,
    now: u64,
)
    requires
        auth::cookie_safe(value),
        auth::reads_back(key, "session"@, email, expiry, value),
        now <= expiry,
    ensures
        admitted(token, header, query, key, Some(auth::SESSION_COOKIE@ + "="@ + value), now),
{
    lemma_login_cookie(key, email, value);
    assert(signed_in(key, Some(auth::SESSION_COOKIE@ + "="@ + value), now) == Some(email));
}

// ---------------------------------------------------------------------------
// Signing in
// ---------------------------------------------------------------------------

/// One character as it stands in HTML text or in a quoted attribute.
pub open spec fn html_char(c: char) -> Seq<char> {
    if c == '&' {
        "&amp;"@
    } else if c == '<' {
        "&lt;"@
    } else if c == '>' {
        "&gt;"@
    } else if c == '"' {
        "&quot;"@
    } else {
        seq![c]
    }
}

/// A text as it stands in HTML.
pub open spec fn html_text(s: Seq<char>) -> Seq<char>
    decreases s.len(),
{
    if s.len() == 0 {
        Seq::empty()
    } else {
        html_text(s.drop_last()) + html_char(s.last())
    }
}

/// The text as it stands in HTML.
pub fn html_escape(value: &str) -> (out: String)
    ensures
        out@ == html_text(value@),
{
    let chars: Vec<char> = text::chars_of(value);
    let mut out: String = String::new();
    let mut i: usize = 0;
    proof {
        assert(value@.take(0) =~= Seq::empty());
        assert(out@ =~= Seq::empty());
    }
    while i < chars.len()
        invariant
            i <= chars@.len(),
            chars@ == value@,
            out@ == html_text(value@.take(i as int)),
        decreases chars@.len() - i,
    {
        let c: char = chars[i];
        let ghost before = out@;
        if c == '&' {
            out.append("&amp;");
        } else if c == '<' {
            out.append("&lt;");
        } else if c == '>' {
            out.append("&gt;");
        } else if c == '"' {
            out.append("&quot;");
        } else {
            out.push(c);
        }
        proof {
            assert(out@ =~= before + html_char(c));
            assert(value@.take(i + 1).drop_last() =~= value@.take(i as int));
        }
        i += 1;
    }
    proof {
        assert(value@.take(i as int) =~= value@);
    }
    out
}

/// Escaped text opens no tag and closes no attribute.
pub proof fn escaped_text_is_inert(s: Seq<char>, i: int)
    requires
        0 <= i < html_text(s).len(),
    ensures
        html_text(s)[i] != '<',
        html_text(s)[i] != '>',
        html_text(s)[i] != '"',
    decreases s.len(),
{
    if s.len() > 0 {
        let head = html_text(s.drop_last());
        if i < head.len() {
            escaped_text_is_inert(s.drop_last(), i);
        } else {
            reveal_strlit("&amp;");
            reveal_strlit("&lt;");
            reveal_strlit("&gt;");
            reveal_strlit("&quot;");
            assert(html_text(s)[i] == html_char(s.last())[i - head.len()]);
        }
    }
}

/// The page that says why someone is not signed in.
pub open spec fn refusal_page(why: Seq<char>) -> Seq<char> {
    "<!doctype html><title>ceilidh</title><main style=\"font-family:system-ui;padding:2rem\"><h1>Not signed in</h1><p>"@
        + why + "</p><p><a href=\"/\">Back</a></p></main>"@
}

/// The page that says why someone is not signed in.
pub fn refuse(why: &str) -> (page: String)
    ensures
        page@ == refusal_page(why@),
{
    let mut page: String =
        "<!doctype html><title>ceilidh</title><main style=\"font-family:system-ui;padding:2rem\"><h1>Not signed in</h1><p>".to_string();
    page.append(why);
    page.append("</p><p><a href=\"/\">Back</a></p></main>");
    page
}

/// What Google sent the browser back with.
#[derive(Debug)]
pub struct CallbackQuery {
    pub code: Option<String>,
    pub state: Option<String>,
    pub error: Option<String>,
}

/// What to do with a browser that Google sent back.
#[derive(Debug)]
pub enum CallbackStep {
    /// Google sign-in is not configured: 404.
    Missing { error: ApiError },
    /// 403, with this page.
    Refuse { page: String },
    /// Trade the code for the user's email.
    Exchange { code: String },
}

/// The state that a `Cookie` header proves this browser started with.
pub open spec fn started_with(
    key: Seq<u8>,
    cookies: Option<Seq<char>>,
    now: u64,
) -> Option<Seq<char>> {
    match cookies {
        Some(header) => match auth::cookie_in(header, auth::STATE_COOKIE@) {
            Some(value) => auth::verified(key, "state"@, value, now),
            None => None,
        },
        None => None,
    }
}

/// What is to be done with a browser that Google sent back.
pub open spec fn callback_step(
    google: bool,
    query: CallbackQuery,
    key: Seq<u8>,
    cookies: Option<Seq<char>>,
    now: u64,
    step: CallbackStep,
) -> bool {
    match step {
        CallbackStep::Missing { error } => !google && error@ == store::not_found_error(
            "google sign-in"@,
        ),
        CallbackStep::Refuse { page } => google && if query.error is Some {
            page@ == refusal_page("Google said: "@ + html_text(query.error->0@))
        } else if query.code is None || query.state is None {
            page@ == refusal_page("The sign-in reply was incomplete. Try again."@)
        } else {
            started_with(key, cookies, now) != Some(query.state->0@) && page@ == refusal_page(
                "The sign-in did not start from this browser. Try again."@,
            )
        },
        CallbackStep::Exchange { code } => {
            &&& google
            &&& query.error is None
            &&& query.code is Some && code@ == query.code->0@
            &&& query.state is Some && started_with(key, cookies, now) == Some(query.state->0@)
        },
    }
}

/// Takes a browser that Google sent back.
pub fn start_callback(
    google: bool,
    query: CallbackQuery,
    signer: &CookieSigner,
    cookies: Option<&str>,
    now: u64,
) -> (step: CallbackStep)
    ensures
        callback_step(google, query, signer@, auth::opt_str(cookies), now, step),
{
    if !google {
        return CallbackStep::Missing { error: ApiError::not_found("google sign-in") };
    }
    if let Some(error) = &query.error {
        let mut why: String = "Google said: ".to_string();
        why.append(&html_escape(error));
        return CallbackStep::Refuse { page: refuse(&why) };
    }
    match (query.code, query.state) {
        (Some(code), Some(state)) => {
            let expected: Option<String> = match cookies {
                Some(header) => match auth::cookie_value(header, auth::STATE_COOKIE) {
                    Some(value) => signer.verify_at("state", value, now),
                    None => None,
                },
                None => None,
            };
            assert(text::opt_text(expected) == started_with(signer@, auth::opt_str(cookies), now));
            let same: bool = match &expected {
                Some(expected) => text::same_text(expected, &state),
                None => false,
            };
            if same {
                CallbackStep::Exchange { code }
            } else {
                CallbackStep::Refuse {
                    page: refuse("The sign-in did not start from this browser. Try again."),
                }
            }
        },
        _ => CallbackStep::Refuse {
            page: refuse("The sign-in reply was incomplete. Try again."),
        },
    }
}

/// How a sign-in ends.
#[derive(Debug)]
pub enum SignIn {
    /// 403, with this page.
    Refuse { page: String },
    /// The browser is sent to the front page with these cookies.
    Done { session: String, cleared_state: String },
}

/// How a sign-in ends, given what Google said of the user, if it said
/// anything.
pub open spec fn sign_in_ends(
    google: GoogleView,
    info: Option<UserInfo>,
    key: Seq<u8>,
    now: u64,
    end: SignIn,
) -> bool {
    match end {
        SignIn::Refuse { page } => if info is None {
            page@ == refusal_page("Google did not confirm the sign-in. Try again."@)
        } else if info->0.email is None || !info->0.email_verified {
            page@ == refusal_page("Google did not return a verified email address."@)
        } else {
            let email = info->0.email->0@;
            &&& !google.allowed_emails.contains(auth::email_key(email))
            &&& page@ == refusal_page(html_text(email) + " is not allowed in here."@)
        },
        SignIn::Done { session, cleared_state } => {
            &&& info is Some && info->0.email is Some && info->0.email_verified
            &&& google.allowed_emails.contains(auth::email_key(info->0.email->0@))
            &&& session@ == auth::session_cookie_text(
                auth::signed(
                    key,
                    "session"@,
                    info->0.email->0@,
                    auth::expiry_of(now, auth::SESSION_SECONDS),
                ),
            )
            &&& auth::is_good(
                key,
                "session"@,
                info->0.email->0@,
                auth::expiry_of(now, auth::SESSION_SECONDS),
            )
            &&& cleared_state@ == auth::cleared_cookie_text(auth::STATE_COOKIE@, "/auth"@)
        },
    }
}

/// Ends a sign-in: only a verified email on the allowlist gets a login.
pub fn finish_callback(
    google: &GoogleAuth,
    info: Option<UserInfo>,
    signer: &CookieSigner,
    now: u64,
) -> (end: SignIn)
    ensures
        sign_in_ends(google@, info, signer@, now, end),
{
    let info: UserInfo = match info {
        Some(info) => info,
        None => {
            return SignIn::Refuse {
                page: refuse("Google did not confirm the sign-in. Try again."),
            };
        },
    };
    let email: String = match info.email {
        Some(email) if info.email_verified => email,
        _ => {
            return SignIn::Refuse {
                page: refuse("Google did not return a verified email address."),
            };
        },
    };
    if !google.allows(&email) {
        let mut why: String = html_escape(&email);
        why.append(" is not allowed in here.");
        return SignIn::Refuse { page: refuse(&why) };
    }
    SignIn::Done {
        session: auth::session_cookie_at(signer, &email, now),
        cleared_state: auth::clear_cookie(auth::STATE_COOKIE, "/auth"),
    }
}

/// A browser that is sent to Google: the cookie it takes along, and where it
/// is sent.
#[derive(Debug)]
pub struct Login {
    pub cookie: String,
    pub location: String,
}

/// How the start of a sign-in ends: with the cookie and the address, or with a
/// refusal where there is no sign-in.
pub open spec fn login_ends(
    google: Option<GoogleView>,
    key: Seq<u8>,
    nonce: Seq<char>,
    now: u64,
    login: Result<(Seq<char>, Seq<char>), ErrorView>,
) -> bool {
    match login {
        Ok((cookie, location)) => {
            &&& google is Some
            &&& cookie == auth::state_cookie_text(
                auth::signed(key, "state"@, nonce, auth::expiry_of(now, auth::STATE_SECONDS)),
            )
            &&& auth::is_good(
                key,
                "state"@,
                nonce,
                auth::expiry_of(now, auth::STATE_SECONDS),
            )
            &&& location == auth::authorize_of(google->0, nonce)
        },
        Err(error) => google is None && error == store::not_found_error("google sign-in"@),
    }
}

/// Starts a sign-in under a fresh nonce.
pub fn login_at(google: Option<&GoogleAuth>, signer: &CookieSigner, nonce: &str, now: u64) -> (login:
    Result<Login, ApiError>)
    ensures
        login_ends(
            match google {
                Some(google) => Some(google@),
                None => None,
            },
            signer@,
            nonce@,
            now,
            match login {
                Ok(login) => Ok((login.cookie@, login.location@)),
                Err(error) => Err(error@),
            },
        ),
{
    match google {
        Some(google) => Ok(
            Login {
                cookie: auth::state_cookie_at(signer, nonce, now),
                location: google.authorize_url(nonce),
            },
        ),
        None => Err(ApiError::not_found("google sign-in")),
    }
}

/// The pair that a browser sends back of a cookie that a sign-in set.
pub open spec fn sent_back(name: Seq<char>, value: Seq<char>) -> Option<Seq<char>> {
    Some(name + "="@ + value)
}

/// Whoever signed in is let through with the cookie that the sign-in set,
/// until it expires, unless a bar stands in the email.
pub proof fn who_signed_in_is_admitted(
    google: GoogleView,
    info: Option<UserInfo>,
    key: Seq<u8>,
    now: u64,
    session: String,
    cleared_state: String,
    token: Option<Seq<char>>,
    header: Option<Seq<char>>,
    query: Option<Seq<char>>,
    later: u64,
)
    requires
        sign_in_ends(google, info, key, now, SignIn::Done { session, cleared_state }),
        auth::no_bar(info->0.email->0@),
        later <= auth::expiry_of(now, auth::SESSION_SECONDS),
    ensures
        ({
            let value = auth::signed(
                key,
                "session"@,
                info->0.email->0@,
                auth::expiry_of(now, auth::SESSION_SECONDS),
            );
            &&& session@ == auth::session_cookie_text(value)
            &&& signed_in(key, sent_back(auth::SESSION_COOKIE@, value), later) == Some(
                info->0.email->0@,
            )
            &&& admitted(
                token,
                header,
                query,
                key,
                sent_back(auth::SESSION_COOKIE@, value),
                later,
            )
        }),
{
    let email = info->0.email->0@;
    let expiry = auth::expiry_of(now, auth::SESSION_SECONDS);
    let value = auth::signed(key, "session"@, email, expiry);
    a_login_cookie_admits(token, header, query, key, email, expiry, value, later);
    lemma_login_cookie(key, email, value);
    assert(auth::reads_back(key, "session"@, email, expiry, value));
    assert(signed_in(key, Some(auth::SESSION_COOKIE@ + "="@ + value), later) == Some(email));
}

/// A browser that comes back with the state cookie of a sign-in and its nonce
/// goes on to the exchange, until the cookie expires.
pub proof fn a_sign_in_comes_back(
    key: Seq<u8>,
    nonce: Seq<char>,
    expiry: u64,
    query: CallbackQuery,
    now: u64,
    step: CallbackStep,
)
    requires
        auth::is_good(key, "state"@, nonce, expiry),
        auth::no_bar(nonce),
        now <= expiry,
        query.error is None,
        query.code is Some,
        query.state is Some,
        callback_step(
            true,
            query,
            key,
            sent_back(auth::STATE_COOKIE@, auth::signed(key, "state"@, nonce, expiry)),
            now,
            step,
        ),
    ensures
        step is Exchange <==> query.state->0@ == nonce,
        step matches CallbackStep::Exchange { code } ==> code@ == query.code->0@,
{
    let value = auth::signed(key, "state"@, nonce, expiry);
    let name = auth::STATE_COOKIE@;
    reveal_strlit("ceilidh_oauth_state");
    assert forall|i: int| 0 <= i < name.len() implies outside::is_url_safe(#[trigger] name[i]) by {}
    auth::lone_cookie_is_found(name, value);
    assert(auth::verified(key, "state"@, value, now) == Some(nonce));
}

} // verus!
