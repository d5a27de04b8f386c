//! Sign in with Google for the browser, so the operator token can go back to
//! being a machine credential.
//!
//! The flow is the plain OpenID Connect authorization code exchange: the
//! browser is sent to Google, Google sends it back with a code, the caller
//! trades the code for tokens over TLS with its client secret, asks Google who
//! the user is, and only then checks the email against the allowlist. A signed
//! cookie carries the login from there.

use vstd::prelude::*;
use vstd::utf8::{decode_utf8, encode_utf8, valid_utf8};

use crate::outside;
use crate::text;

verus! {

pub const SESSION_COOKIE: &'static str = "ceilidh_session";

pub const STATE_COOKIE: &'static str = "ceilidh_oauth_state";

/// How long a login lasts: thirty days.
pub const SESSION_SECONDS: u64 = 2_592_000;

/// How long a sign-in may take.
pub const STATE_SECONDS: u64 = 600;

// ---------------------------------------------------------------------------
// Configuration
// ---------------------------------------------------------------------------

/// Everything the caller needs to run the Google flow. Absent means the login
/// screen falls back to the token field.
#[derive(Debug)]
pub struct GoogleAuth {
    pub client_id: String,
    pub client_secret: String,
    /// Where the caller is reachable, used to build the redirect URI.
    pub public_url: String,
    /// Lower-cased emails allowed in.
    pub allowed_emails: Vec<String>,
}

/// The view of the Google configuration.
#[verifier::ext_equal]
pub struct GoogleView {
    pub client_id: Seq<char>,
    pub client_secret: Seq<char>,
    pub public_url: Seq<char>,
    pub allowed_emails: Seq<Seq<char>>,
}

impl View for GoogleAuth {
    type V = GoogleView;

    open spec fn view(&self) -> GoogleView {
        GoogleView {
            client_id: self.client_id@,
            client_secret: self.client_secret@,
            public_url: self.public_url@,
            allowed_emails: text::texts(self.allowed_emails@),
        }
    }
}

/// An email as it is compared: trimmed, ASCII letters in lower case.
pub open spec fn email_key(email: Seq<char>) -> Seq<char> {
    text::lowered(text::trimmed(email))
}

/// The emails of a comma-separated list, without the empty ones.
pub open spec fn email_list(list: Seq<char>) -> Seq<Seq<char>>
    decreases list.len(),
{
    proof {
        text::lemma_place_of(list, ',');
    }
    let p = text::place_of(list, ',');
    let first = email_key(list.take(p));
    let rest = if p < list.len() {
        email_list(list.skip(p + 1))
    } else {
        Seq::empty()
    };
    if first.len() > 0 {
        seq![first] + rest
    } else {
        rest
    }
}

/// A value that is there and not blank.
pub open spec fn given(value: Option<Seq<char>>) -> bool {
    value is Some && !text::is_blank(value->0)
}

/// The configuration that the environment gives, if every piece is there.
pub open spec fn google_from_env(
    client_id: Option<Seq<char>>,
    client_secret: Option<Seq<char>>,
    public_url: Option<Seq<char>>,
    allowed_emails: Option<Seq<char>>,
) -> Option<GoogleView> {
    let emails = match allowed_emails {
        Some(list) => email_list(list),
        None => Seq::empty(),
    };
    if given(client_id) && given(client_secret) && given(public_url) && emails.len() > 0 {
        Some(
            GoogleView {
                client_id: client_id->0,
                client_secret: client_secret->0,
                public_url: text::strip_end(public_url->0, '/'),
                allowed_emails: emails,
            },
        )
    } else {
        None
    }
}

/// The view of an optional configuration.
pub open spec fn opt_google(auth: Option<GoogleAuth>) -> Option<GoogleView> {
    match auth {
        Some(auth) => Some(auth@),
        None => None,
    }
}

/// The value, where it is there and not blank.
fn not_blank(value: Option<String>) -> (kept: Option<String>)
    ensures
        text::opt_text(kept) == (if given(text::opt_text(value)) {
            text::opt_text(value)
        } else {
            None
        }),
{
    match value {
        Some(value) => {
            if text::blank(&value) {
                None
            } else {
                Some(value)
            }
        },
        None => None,
    }
}

/// The emails of a comma-separated list, without the empty ones.
fn parse_emails(list: &str) -> (emails: Vec<String>)
    ensures
        text::texts(emails@) == email_list(list@),
{
    let chars: Vec<char> = text::chars_of(list);
    let n: usize = chars.len();
    let mut emails: Vec<String> = Vec::new();
    let mut from: usize = 0;
    proof {
        assert(chars@.subrange(0, n as int) =~= list@);
        assert(text::texts(emails@) + email_list(list@) =~= email_list(list@));
    }
    loop
        invariant_except_break
            from <= n == chars@.len(),
            text::texts(emails@) + email_list(chars@.subrange(from as int, n as int))
                == email_list(list@),
        ensures
            text::texts(emails@) == email_list(list@),
        decreases n - from,
    {
        let ghost rest = chars@.subrange(from as int, n as int);
        let p: usize = text::find_in(&chars, from, n, ',');
        let part: String = text::text_range(&chars, from, p);
        assert(part@ =~= rest.take(p - from));
        let email: String = text::to_lower(&text::trim(&part));
        let ghost before = text::texts(emails@);
        if !email.as_str().is_empty() {
            let ghost old_emails = emails@;
            emails.push(email);
            assert(text::texts(emails@) =~= text::texts(old_emails).push(email_key(part@)));
        }
        if p >= n {
            proof {
                assert(text::texts(emails@) =~= before + email_list(rest));
            }
            break;
        }
        proof {
            assert(rest.skip(p - from + 1) =~= chars@.subrange(p + 1, n as int));
            assert(text::texts(emails@) + email_list(chars@.subrange(p + 1, n as int)) =~= before
                + email_list(rest));
        }
        from = p + 1;
    }
    emails
}

impl GoogleAuth {
    pub fn from_env_values(
        client_id: Option<String>,
        client_secret: Option<String>,
        public_url: Option<String>,
        allowed_emails: Option<String>,
    ) -> (auth: Option<Self>)
        ensures
            opt_google(auth) == google_from_env(
                text::opt_text(client_id),
                text::opt_text(client_secret),
                text::opt_text(public_url),
                text::opt_text(allowed_emails),
            ),
    {
        let emails: Vec<String> = match &allowed_emails {
            Some(list) => parse_emails(list),
            None => Vec::new(),
        };
        proof {
            if allowed_emails is None {
                assert(text::texts(emails@) =~= Seq::empty());
            }
        }
        match (not_blank(client_id), not_blank(client_secret), not_blank(public_url)) {
            (Some(client_id), Some(client_secret), Some(public_url)) => {
                if emails.len() == 0 {
                    return None;
                }
                Some(
                    GoogleAuth {
                        client_id,
                        client_secret,
                        public_url: text::trim_end_char(&public_url, '/'),
                        allowed_emails: emails,
                    },
                )
            },
            _ => None,
        }
    }

    /// Where Google sends the browser back to.
    pub fn redirect_uri(&self) -> (uri: String)
        ensures
            uri@ == redirect_of(self@),
    {
        let mut uri: String = self.public_url.clone();
        uri.append("/auth/callback");
        uri
    }

    /// Whether the email is on the allowlist.
    pub fn allows(&self, email: &str) -> (yes: bool)
        ensures
            yes == self@.allowed_emails.contains(email_key(email@)),
    {
        let key: String = text::to_lower(&text::trim(email));
        let mut i: usize = 0;
        while i < self.allowed_emails.len()
            invariant
                i <= self.allowed_emails@.len(),
                key@ == email_key(email@),
                forall|k: int| 0 <= k < i ==> self@.allowed_emails[k] != key@,
            decreases self.allowed_emails@.len() - i,
        {
            if text::same_text(&self.allowed_emails[i], &key) {
                assert(self@.allowed_emails[i as int] == key@);
                return true;
            }
            i += 1;
        }
        false
    }
}

/// Where Google sends the browser back to.
pub open spec fn redirect_of(auth: GoogleView) -> Seq<char> {
    auth.public_url + "/auth/callback"@
}

// ---------------------------------------------------------------------------
// The URL the browser is sent to
// ---------------------------------------------------------------------------

/// The bytes that a URL may carry as they are.
pub open spec fn is_unreserved(b: u8) -> bool {
    0x41 <= b <= 0x5a || 0x61 <= b <= 0x7a || 0x30 <= b <= 0x39 || b == 0x2d || b == 0x5f || b
        == 0x2e || b == 0x7e
}

/// The upper-case hexadecimal digit of a number below sixteen.
pub open spec fn hex_digit(n: int) -> char {
    if n < 10 {
        (0x30 + n) as char
    } else {
        (0x37 + n) as char
    }
}

/// One byte in a URL: as it is, or percent-encoded.
pub open spec fn url_byte(b: u8) -> Seq<char> {
    if is_unreserved(b) {
        seq![b as char]
    } else {
        seq!['%', hex_digit(b as int / 16), hex_digit(b as int % 16)]
    }
}

/// Bytes in a URL.
pub open spec fn url_bytes(bytes: Seq<u8>) -> Seq<char>
    decreases bytes.len(),
{
    if bytes.len() == 0 {
        Seq::empty()
    } else {
        url_bytes(bytes.drop_last()) + url_byte(bytes.last())
    }
}

/// A text in a URL: its UTF-8 bytes, percent-encoded where they have to be.
pub open spec fn url_text(s: Seq<char>) -> Seq<char> {
    url_bytes(encode_utf8(s))
}

/// The upper-case hexadecimal digit of a number below sixteen.
fn hex_char(n: u8) -> (c: char)
    requires
        n < 16,
    ensures
        c == hex_digit(n as int),
{
    if n < 10 {
        (0x30 + n) as char
    } else {
        (0x37 + n) as char
    }
}

/// The text as it stands in a URL.
pub fn urlencode(value: &str) -> (out: String)
    ensures
        out@ == url_text(value@),
{
    let bytes: &[u8] = value.as_bytes();
    let ghost all = encode_utf8(value@);
    let mut out: String = String::new();
    let mut i: usize = 0;
    proof {
        assert(all.take(0) =~= Seq::empty());
        assert(out@ =~= Seq::empty());
    }
    while i < bytes.len()
        invariant
            i <= bytes@.len(),
            bytes@ == all,
            out@ == url_bytes(all.take(i as int)),
        decreases bytes@.len() - i,
    {
        let byte: u8 = bytes[i];
        let ghost before = out@;
        let plain: bool = (0x41 <= byte && byte <= 0x5a) || (0x61 <= byte && byte <= 0x7a) || (0x30
            <= byte && byte <= 0x39) || byte == 0x2d || byte == 0x5f || byte == 0x2e || byte
            == 0x7e;
        if plain {
            out.push(byte as char);
        } else {
            out.push('%');
            out.push(hex_char(byte / 16));
            out.push(hex_char(byte % 16));
        }
        proof {
            assert(all.take(i + 1).drop_last() =~= all.take(i as int));
            assert(out@ =~= before + url_byte(byte));
        }
        i += 1;
    }
    proof {
        assert(all.take(i as int) =~= all);
    }
    out
}

/// What stands in a URL is unreserved, or part of a percent-encoding.
pub proof fn urls_are_plain(s: Seq<char>, i: int)
    requires
        0 <= i < url_text(s).len(),
    ensures
        url_text(s)[i] == '%' || (url_text(s)[i] as u32 <= 0x7f && is_unreserved(
            url_text(s)[i] as u8,
        )),
{
    lemma_url_bytes_plain(encode_utf8(s), i);
}

proof fn lemma_url_bytes_plain(bytes: Seq<u8>, i: int)
    requires
        0 <= i < url_bytes(bytes).len(),
    ensures
        url_bytes(bytes)[i] == '%' || (url_bytes(bytes)[i] as u32 <= 0x7f && is_unreserved(
            url_bytes(bytes)[i] as u8,
        )),
    decreases bytes.len(),
{
    if bytes.len() > 0 {
        let head = url_bytes(bytes.drop_last());
        if i < head.len() {
            lemma_url_bytes_plain(bytes.drop_last(), i);
        } else {
            let b = bytes.last();
            assert(url_bytes(bytes)[i] == url_byte(b)[i - head.len()]);
            assert(b / 16 < 16 && b % 16 < 16);
        }
    }
}

/// A parameter of a query.
pub open spec fn param(key: Seq<char>, value: Seq<char>) -> Seq<char> {
    key + "="@ + url_text(value)
}

/// The URL the browser is sent to.
pub open spec fn authorize_of(auth: GoogleView, state: Seq<char>) -> Seq<char> {
    "https://accounts.google.com/o/oauth2/v2/auth?"@ + param("client_id"@, auth.client_id) + "&"@
        + param("redirect_uri"@, redirect_of(auth)) + "&"@ + param("response_type"@, "code"@) + "&"@
        + param("scope"@, "openid email"@) + "&"@ + param("state"@, state) + "&"@ + param(
        "prompt"@,
        "select_account"@,
    ) + "&"@ + param("access_type"@, "online"@)
}

/// Adds a parameter to a query.
fn add_param(url: &mut String, key: &str, value: &str)
    ensures
        final(url)@ == old(url)@ + param(key@, value@),
{
    let ghost before = url@;
    url.append(key);
    url.append("=");
    url.append(&urlencode(value));
    assert(url@ =~= before + param(key@, value@));
}

impl GoogleAuth {
    /// The URL the browser is sent to.
    pub fn authorize_url(&self, state: &str) -> (url: String)
        ensures
            url@ == authorize_of(self@, state@),
    {
        let mut url: String = "https://accounts.google.com/o/oauth2/v2/auth?".to_string();
        add_param(&mut url, "client_id", &self.client_id);
        url.append("&");
        add_param(&mut url, "redirect_uri", &self.redirect_uri());
        url.append("&");
        add_param(&mut url, "response_type", "code");
        url.append("&");
        add_param(&mut url, "scope", "openid email");
        url.append("&");
        add_param(&mut url, "state", state);
        url.append("&");
        add_param(&mut url, "prompt", "select_account");
        url.append("&");
        add_param(&mut url, "access_type", "online");
        url
    }
}

/// What Google answers a code with.
#[derive(Debug)]
pub struct TokenResponse {
    pub access_token: String,
}

/// Who Google says this is.
#[derive(Debug)]
pub struct UserInfo {
    pub email: Option<String>,
    pub email_verified: bool,
}

// ---------------------------------------------------------------------------
// Signing
// ---------------------------------------------------------------------------

/// Whether two byte strings are the same, in a time that depends on their
/// lengths alone.
pub fn constant_time_eq(a: &[u8], b: &[u8]) -> (same: bool)
    ensures
        same == (a@ == b@),
{
    if a.len() != b.len() {
        return false;
    }
    let mut acc: u8 = 0;
    let mut i: usize = 0;
    while i < a.len()
        invariant
            i <= a@.len() == b@.len(),
            (acc == 0) == (forall|k: int| 0 <= k < i ==> a@[k] == b@[k]),
        decreases a@.len() - i,
    {
        let x: u8 = a[i];
        let y: u8 = b[i];
        assert((acc | (x ^ y)) == 0 <==> acc == 0 && x == y) by (bit_vector);
        acc = acc | (x ^ y);
        i += 1;
    }
    proof {
        if acc == 0 {
            assert(a@ =~= b@);
        }
    }
    acc == 0
}

/// Signs and verifies the cookies. The key is whatever the operator gave, else
/// the bearer token, so a token rotation logs every browser out, which is the
/// right default.
pub struct CookieSigner {
    key: Vec<u8>,
}

impl View for CookieSigner {
    type V = Seq<u8>;

    closed spec fn view(&self) -> Seq<u8> {
        self.key@
    }
}

/// A copy of some bytes.
fn copy_bytes(bytes: &[u8]) -> (copy: Vec<u8>)
    ensures
        copy@ == bytes@,
{
    let mut copy: Vec<u8> = Vec::new();
    let mut i: usize = 0;
    while i < bytes.len()
        invariant
            i <= bytes@.len(),
            copy@ == bytes@.take(i as int),
        decreases bytes@.len() - i,
    {
        copy.push(bytes[i]);
        i += 1;
    }
    proof {
        assert(bytes@.take(i as int) =~= bytes@);
    }
    copy
}

impl Clone for CookieSigner {
    fn clone(&self) -> (copy: Self)
        ensures
            copy@ == self@,
    {
        CookieSigner { key: copy_bytes(&self.key) }
    }
}

/// The code over an encoded payload.
pub open spec fn code_of(key: Seq<u8>, encoded: Seq<char>) -> Seq<char> {
    outside::base64_text(outside::hmac_sha256(key, encode_utf8(encoded)))
}

/// `<kind>|<subject>|<expiry>`.
pub open spec fn payload(kind: Seq<char>, subject: Seq<char>, expiry: u64) -> Seq<char> {
    kind + "|"@ + subject + "|"@ + text::decimal(expiry as nat)
}

/// A cookie: `<base64(payload)>.<base64(hmac)>`.
pub open spec fn signed(
    key: Seq<u8>,
    kind: Seq<char>,
    subject: Seq<char>,
    expiry: u64,
) -> Seq<char> {
    let encoded = outside::base64_text(encode_utf8(payload(kind, subject, expiry)));
    encoded + "."@ + code_of(key, encoded)
}

/// The three fields of a payload: the text before the first bar, the text
/// between the first two, and the rest.
pub open spec fn fields(payload: Seq<char>) -> Option<(Seq<char>, Seq<char>, Seq<char>)> {
    match text::cut(payload, '|') {
        Some((kind, rest)) => match text::cut(rest, '|') {
            Some((subject, expiry)) => Some((kind, subject, expiry)),
            None => None,
        },
        None => None,
    }
}

/// The subject of a payload, where it is of the right kind and unexpired.
pub open spec fn subject_of(
    payload: Seq<char>,
    kind: Seq<char>,
    now: u64,
) -> Option<Seq<char>> {
    match fields(payload) {
        Some((got_kind, subject, expiry)) => match text::parsed(expiry) {
            Some(expiry) => if got_kind == kind && now <= expiry {
                Some(subject)
            } else {
                None
            },
            None => None,
        },
        None => None,
    }
}

/// The subject of a cookie, where it is genuine, of the right kind and
/// unexpired.
pub open spec fn verified(
    key: Seq<u8>,
    kind: Seq<char>,
    value: Seq<char>,
    now: u64,
) -> Option<Seq<char>> {
    match text::cut(value, '.') {
        Some((encoded, code)) => if code == code_of(key, encoded) {
            match outside::base64_bytes(encoded) {
                Some(bytes) => if valid_utf8(bytes) {
                    subject_of(decode_utf8(bytes), kind, now)
                } else {
                    None
                },
                None => None,
            }
        } else {
            None
        },
        None => None,
    }
}

/// No bar in the text.
pub open spec fn no_bar(s: Seq<char>) -> bool {
    !s.contains('|')
}

/// When a cookie signed now expires.
pub open spec fn expiry_of(now: u64, ttl_seconds: u64) -> u64 {
    if now + ttl_seconds <= u64::MAX {
        (now + ttl_seconds) as u64
    } else {
        u64::MAX
    }
}

/// What `verify` makes of a cookie: its subject under the kind it was signed
/// for and until it expires, nothing under another kind or later.
pub open spec fn reads_back(
    key: Seq<u8>,
    kind: Seq<char>,
    subject: Seq<char>,
    expiry: u64,
    value: Seq<char>,
) -> bool {
    forall|asked: Seq<char>, now: u64| #[trigger]
        verified(key, asked, value, now) == if asked == kind && now <= expiry {
            Some(subject)
        } else {
            None
        }
}

/// Without bars in the kind and the subject the fields of a payload are what
/// it was made of.
proof fn lemma_payload_fields(kind: Seq<char>, subject: Seq<char>, expiry: u64)
    requires
        no_bar(kind),
        no_bar(subject),
    ensures
        fields(payload(kind, subject, expiry)) == Some(
            (kind, subject, text::decimal(expiry as nat)),
        ),
{
    reveal_strlit("|");
    let digits = text::decimal(expiry as nat);
    let rest = subject + "|"@ + digits;
    let all = payload(kind, subject, expiry);
    assert(all =~= kind + "|"@ + rest);
    let p = kind.len() as int;
    assert forall|i: int| 0 <= i < p implies (#[trigger] all[i]) != '|' by {
        assert(all[i] == kind[i]);
    }
    assert(all[p] == '|');
    text::lemma_place_is(all, '|', p);
    assert(all.take(p) =~= kind);
    assert(all.skip(p + 1) =~= rest);
    let q = subject.len() as int;
    assert forall|i: int| 0 <= i < q implies (#[trigger] rest[i]) != '|' by {
        assert(rest[i] == subject[i]);
    }
    assert(rest[q] == '|');
    text::lemma_place_is(rest, '|', q);
    assert(rest.take(q) =~= subject);
    assert(rest.skip(q + 1) =~= digits);
}

/// A cookie reads back.
proof fn lemma_signed_reads_back(
    key: Seq<u8>,
    kind: Seq<char>,
    subject: Seq<char>,
    expiry: u64,
)
    requires
        no_bar(kind),
        no_bar(subject),
        ({
            let bytes = encode_utf8(payload(kind, subject, expiry));
            &&& outside::url_safe(outside::base64_text(bytes))
            &&& outside::base64_bytes(outside::base64_text(bytes)) == Some(bytes)
        }),
    ensures
        reads_back(key, kind, subject, expiry, signed(key, kind, subject, expiry)),
{
    reveal_strlit(".");
    let inner = payload(kind, subject, expiry);
    let bytes = encode_utf8(inner);
    let encoded = outside::base64_text(bytes);
    let code = code_of(key, encoded);
    let value = signed(key, kind, subject, expiry);
    let p = encoded.len() as int;
    assert forall|i: int| 0 <= i < p implies (#[trigger] value[i]) != '.' by {
        assert(value[i] == encoded[i]);
        assert(outside::is_url_safe(encoded[i]));
    }
    assert(value[p] == '.');
    text::lemma_place_is(value, '.', p);
    assert(value.take(p) =~= encoded);
    assert(value.skip(p + 1) =~= code);
    vstd::utf8::encode_utf8_valid_utf8(inner);
    vstd::utf8::encode_utf8_decode_utf8(inner);
    lemma_payload_fields(kind, subject, expiry);
    text::decimals_read_back(expiry);
    assert forall|asked: Seq<char>, now: u64| #[trigger]
        verified(key, asked, value, now) == if asked == kind && now <= expiry {
            Some(subject)
        } else {
            None
        } by {}
}

impl CookieSigner {
    pub fn new(secret: &str) -> (signer: Self)
        ensures
            signer@ == encode_utf8(secret@),
    {
        CookieSigner { key: copy_bytes(secret.as_bytes()) }
    }

    /// The code over an encoded payload.
    fn mac(&self, data: &str) -> (code: String)
        ensures
            code@ == code_of(self@, data@),
            outside::url_safe(code@),
    {
        outside::base64_encode(&outside::mac_of(&self.key, data.as_bytes()))
    }

    /// A cookie of a kind for a subject, signed at `now` and good for so many
    /// seconds.
    pub fn sign_at(&self, kind: &str, subject: &str, ttl_seconds: u64, now: u64) -> (value: String)
        ensures
            value@ == signed(self@, kind@, subject@, expiry_of(now, ttl_seconds)),
            cookie_safe(value@),
            no_bar(kind@) && no_bar(subject@) ==> reads_back(
                self@,
                kind@,
                subject@,
                expiry_of(now, ttl_seconds),
                value@,
            ),
    {
        let expiry: u64 = match now.checked_add(ttl_seconds) {
            Some(expiry) => expiry,
            None => u64::MAX,
        };
        let mut inner: String = kind.to_string();
        inner.append("|");
        inner.append(subject);
        inner.append("|");
        inner.append(&text::decimal_text(expiry));
        assert(inner@ == payload(kind@, subject@, expiry));
        let encoded: String = outside::base64_encode(inner.as_str().as_bytes());
        let code: String = self.mac(&encoded);
        let mut value: String = encoded.clone();
        value.append(".");
        value.append(&code);
        proof {
            reveal_strlit(".");
            assert forall|i: int| 0 <= i < value@.len() implies outside::is_url_safe(
                #[trigger] value@[i],
            ) || value@[i] == '.' by {
                if i < encoded@.len() {
                    assert(value@[i] == encoded@[i]);
                } else if i > encoded@.len() {
                    assert(value@[i] == code@[i - encoded@.len() - 1]);
                }
            }
            if no_bar(kind@) && no_bar(subject@) {
                lemma_signed_reads_back(self@, kind@, subject@, expiry);
            }
        }
        value
    }

    /// A cookie of a kind for a subject, good for so many seconds from now.
    pub fn sign(&self, kind: &str, subject: &str, ttl_seconds: u64) -> (value: String)
        ensures
            exists|now: u64|
                value@ == signed(
                    self@,
                    kind@,
                    subject@,
                    #[trigger] expiry_of(now, ttl_seconds),
                ) && (no_bar(kind@) && no_bar(subject@) ==> reads_back(
                    self@,
                    kind@,
                    subject@,
                    expiry_of(now, ttl_seconds),
                    value@,
                )),
            cookie_safe(value@),
    {
        let now: u64 = outside::unix_seconds();
        let value: String = self.sign_at(kind, subject, ttl_seconds, now);
        assert(value@ == signed(self@, kind@, subject@, expiry_of(now, ttl_seconds)));
        value
    }

    /// The subject of a cookie, where it is genuine, of the right kind and
    /// unexpired at `now`.
    pub fn verify_at(&self, kind: &str, value: &str, now: u64) -> (subject: Option<String>)
        ensures
            text::opt_text(subject) == verified(self@, kind@, value@, now),
    {
        let (encoded, code) = match text::split_once(value, '.') {
            Some(parts) => parts,
            None => {
                return None;
            },
        };
        let expected: String = self.mac(&encoded);
        let genuine: bool = constant_time_eq(
            expected.as_str().as_bytes(),
            code.as_str().as_bytes(),
        );
        proof {
            vstd::utf8::encode_utf8_decode_utf8(expected@);
            vstd::utf8::encode_utf8_decode_utf8(code@);
            assert(genuine == (expected@ == code@));
        }
        if !genuine {
            return None;
        }
        let bytes: Vec<u8> = match outside::base64_decode(&encoded) {
            Some(bytes) => bytes,
            None => {
                return None;
            },
        };
        let inner: String = match outside::utf8_text(bytes) {
            Some(inner) => inner,
            None => {
                return None;
            },
        };
        subject(&inner, kind, now)
    }

    /// The subject of a cookie, where it is genuine, of the right kind and
    /// unexpired.
    pub fn verify(&self, kind: &str, value: &str) -> (subject: Option<String>)
        ensures
            exists|now: u64|
                text::opt_text(subject) == #[trigger] verified(self@, kind@, value@, now),
    {
        let now: u64 = outside::unix_seconds();
        let subject: Option<String> = self.verify_at(kind, value, now);
        assert(text::opt_text(subject) == verified(self@, kind@, value@, now));
        subject
    }
}

/// The subject of a payload, where it is of the right kind and unexpired.
pub fn subject(inner: &str, kind: &str, now: u64) -> (subject: Option<String>)
    ensures
        text::opt_text(subject) == subject_of(inner@, kind@, now),
{
    match text::split_once(inner, '|') {
        Some((got_kind, rest)) => {
            match text::split_once(&rest, '|') {
                Some((subject, expiry)) => {
                    match text::parse_u64(&expiry) {
                        Some(expiry) => {
                            if text::same_text(&got_kind, kind) && now <= expiry {
                                Some(subject)
                            } else {
                                None
                            }
                        },
                        None => None,
                    }
                },
                None => None,
            }
        },
        None => None,
    }
}

/// Nothing that a cookie header could not carry in a value.
pub open spec fn cookie_safe(s: Seq<char>) -> bool {
    forall|i: int| 0 <= i < s.len() ==> outside::is_url_safe(#[trigger] s[i]) || s[i] == '.'
}

// ---------------------------------------------------------------------------
// Cookies
// ---------------------------------------------------------------------------

/// The cookie that carries a login.
pub open spec fn session_cookie_text(value: Seq<char>) -> Seq<char> {
    SESSION_COOKIE@ + "="@ + value + "; Path=/; HttpOnly; Secure; SameSite=Lax; Max-Age="@
        + text::decimal(SESSION_SECONDS as nat)
}

/// The cookie that carries the state of a sign-in.
pub open spec fn state_cookie_text(value: Seq<char>) -> Seq<char> {
    STATE_COOKIE@ + "="@ + value + "; Path=/auth; HttpOnly; Secure; SameSite=Lax; Max-Age="@
        + text::decimal(STATE_SECONDS as nat)
}

/// The cookie that takes another one away.
pub open spec fn cleared_cookie_text(name: Seq<char>, path: Seq<char>) -> Seq<char> {
    name + "=; Path="@ + path + "; HttpOnly; Secure; SameSite=Lax; Max-Age=0"@
}

/// The value of a signed cookie can be sent, and reads back as what was signed
/// until it expires, unless a bar stands in the subject.
pub open spec fn is_good(
    key: Seq<u8>,
    kind: Seq<char>,
    subject: Seq<char>,
    expiry: u64,
) -> bool {
    let value = signed(key, kind, subject, expiry);
    &&& cookie_safe(value)
    &&& no_bar(subject) ==> reads_back(key, kind, subject, expiry, value)
}

/// The cookie of a login at `now`.
pub fn session_cookie_at(signer: &CookieSigner, email: &str, now: u64) -> (cookie: String)
    ensures
        cookie@ == session_cookie_text(
            signed(signer@, "session"@, email@, expiry_of(now, SESSION_SECONDS)),
        ),
        is_good(signer@, "session"@, email@, expiry_of(now, SESSION_SECONDS)),
{
    let value: String = signer.sign_at("session", email, SESSION_SECONDS, now);
    proof {
        reveal_strlit("session");
        assert(no_bar("session"@));
    }
    let mut cookie: String = SESSION_COOKIE.to_string();
    cookie.append("=");
    cookie.append(&value);
    cookie.append("; Path=/; HttpOnly; Secure; SameSite=Lax; Max-Age=");
    cookie.append(&text::decimal_text(SESSION_SECONDS));
    cookie
}

/// The cookie of a login, good for thirty days from now.
pub fn session_cookie(signer: &CookieSigner, email: &str) -> (cookie: String)
    ensures
        exists|now: u64|
            cookie@ == session_cookie_text(
                signed(signer@, "session"@, email@, #[trigger] expiry_of(now, SESSION_SECONDS)),
            ) && is_good(signer@, "session"@, email@, expiry_of(now, SESSION_SECONDS)),
{
    let now: u64 = outside::unix_seconds();
    let cookie: String = session_cookie_at(signer, email, now);
    assert(cookie@ == session_cookie_text(
        signed(signer@, "session"@, email@, expiry_of(now, SESSION_SECONDS)),
    ));
    cookie
}

/// The cookie of a sign-in that starts at `now`.
pub fn state_cookie_at(signer: &CookieSigner, state: &str, now: u64) -> (cookie: String)
    ensures
        cookie@ == state_cookie_text(
            signed(signer@, "state"@, state@, expiry_of(now, STATE_SECONDS)),
        ),
        is_good(signer@, "state"@, state@, expiry_of(now, STATE_SECONDS)),
{
    let value: String = signer.sign_at("state", state, STATE_SECONDS, now);
    proof {
        reveal_strlit("state");
        assert(no_bar("state"@));
    }
    let mut cookie: String = STATE_COOKIE.to_string();
    cookie.append("=");
    cookie.append(&value);
    cookie.append("; Path=/auth; HttpOnly; Secure; SameSite=Lax; Max-Age=");
    cookie.append(&text::decimal_text(STATE_SECONDS));
    cookie
}

/// The cookie of a sign-in that starts now.
pub fn state_cookie(signer: &CookieSigner, state: &str) -> (cookie: String)
    ensures
        exists|now: u64|
            cookie@ == state_cookie_text(
                signed(signer@, "state"@, state@, #[trigger] expiry_of(now, STATE_SECONDS)),
            ) && is_good(signer@, "state"@, state@, expiry_of(now, STATE_SECONDS)),
{
    let now: u64 = outside::unix_seconds();
    let cookie: String = state_cookie_at(signer, state, now);
    assert(cookie@ == state_cookie_text(
        signed(signer@, "state"@, state@, expiry_of(now, STATE_SECONDS)),
    ));
    cookie
}

/// The cookie that takes another one away.
pub fn clear_cookie(name: &str, path: &str) -> (cookie: String)
    ensures
        cookie@ == cleared_cookie_text(name@, path@),
{
    let mut cookie: String = name.to_string();
    cookie.append("=; Path=");
    cookie.append(path);
    cookie.append("; HttpOnly; Secure; SameSite=Lax; Max-Age=0");
    cookie
}

/// The value of a `name=value` pair, where it is of this name.
pub open spec fn pair_value(pair: Seq<char>, name: Seq<char>) -> Option<Seq<char>> {
    match text::cut(text::trimmed(pair), '=') {
        Some((key, value)) => if text::trimmed(key) == name {
            Some(text::trimmed(value))
        } else {
            None
        },
        None => None,
    }
}

/// The value of the first pair of this name in a `Cookie:` header.
pub open spec fn cookie_in(header: Seq<char>, name: Seq<char>) -> Option<Seq<char>>
    decreases header.len(),
{
    proof {
        text::lemma_place_of(header, ';');
    }
    let p = text::place_of(header, ';');
    match pair_value(header.take(p), name) {
        Some(value) => Some(value),
        None => if p < header.len() {
            cookie_in(header.skip(p + 1), name)
        } else {
            None
        },
    }
}

/// The view of an optional slice.
pub open spec fn opt_str(value: Option<&str>) -> Option<Seq<char>> {
    match value {
        Some(value) => Some(value@),
        None => None,
    }
}

/// The range of the value of the pair `chars[from..to]`, where it is of this
/// name.
fn pair_range(chars: &Vec<char>, from: usize, to: usize, name: &str) -> (range: Option<
    (usize, usize),
>)
    requires
        from <= to <= chars@.len(),
    ensures
        match range {
            Some((start, end)) => from <= start <= end <= to && pair_value(
                chars@.subrange(from as int, to as int),
                name@,
            ) == Some(chars@.subrange(start as int, end as int)),
            None => pair_value(chars@.subrange(from as int, to as int), name@) is None,
        },
{
    let (a, b) = text::trim_range(chars, from, to);
    let ghost pair = chars@.subrange(a as int, b as int);
    let p: usize = text::find_in(chars, a, b, '=');
    if p == b {
        return None;
    }
    let (k1, k2) = text::trim_range(chars, a, p);
    let key: String = text::text_range(chars, k1, k2);
    proof {
        assert(pair.take(p - a) =~= chars@.subrange(a as int, p as int));
        assert(pair.skip(p - a + 1) =~= chars@.subrange(p + 1, b as int));
    }
    if text::same_text(&key, name) {
        Some(text::trim_range(chars, p + 1, b))
    } else {
        None
    }
}

/// The named cookie's raw value from a `Cookie:` header.
pub fn cookie_value<'a>(header: &'a str, name: &str) -> (value: Option<&'a str>)
    ensures
        opt_str(value) == cookie_in(header@, name@),
{
    let chars: Vec<char> = text::chars_of(header);
    let n: usize = chars.len();
    let mut from: usize = 0;
    proof {
        assert(chars@.subrange(0, n as int) =~= header@);
    }
    loop
        invariant
            from <= n == chars@.len(),
            chars@ == header@,
            cookie_in(chars@.subrange(from as int, n as int), name@) == cookie_in(
                header@,
                name@,
            ),
        decreases n - from,
    {
        let ghost rest = chars@.subrange(from as int, n as int);
        let p: usize = text::find_in(&chars, from, n, ';');
        proof {
            assert(rest.take(p - from) =~= chars@.subrange(from as int, p as int));
        }
        if let Some((start, end)) = pair_range(&chars, from, p, name) {
            return Some(header.substring_char(start, end));
        }
        if p >= n {
            return None;
        }
        proof {
            assert(rest.skip(p - from + 1) =~= chars@.subrange(p + 1, n as int));
        }
        from = p + 1;
    }
}

/// A header that holds one cookie gives its value, for a name and a value
/// that a cookie can carry.
pub proof fn lone_cookie_is_found(name: Seq<char>, value: Seq<char>)
    requires
        name.len() > 0,
        cookie_safe(value),
        outside::url_safe(name),
    ensures
        cookie_in(name + "="@ + value, name) == Some(value),
{
    reveal_strlit("=");
    let header = name + "="@ + value;
    let n = header.len() as int;
    let p = name.len() as int;
    assert forall|i: int| 0 <= i < n implies (#[trigger] header[i]) != ';' && !text::is_space(
        header[i],
    ) by {
        if i < p {
            assert(header[i] == name[i]);
            assert(outside::is_url_safe(name[i]));
        } else if i > p {
            assert(header[i] == value[i - p - 1]);
        }
    }
    text::lemma_place_is(header, ';', n);
    assert(header.take(n) =~= header);
    text::lemma_trimmed_already(header);
    assert forall|i: int| 0 <= i < p implies (#[trigger] header[i]) != '=' by {
        assert(header[i] == name[i]);
        assert(outside::is_url_safe(name[i]));
    }
    assert(header[p] == '=');
    text::lemma_place_is(header, '=', p);
    assert(header.take(p) =~= name);
    assert(header.skip(p + 1) =~= value);
    assert(outside::is_url_safe(name[0]) && outside::is_url_safe(name.last()));
    text::lemma_trimmed_already(name);
    text::lemma_trimmed_already(value);
}

/// A random token that a URL and a cookie can carry: twenty-four random bytes
/// in base64.
pub fn random_token() -> (token: String)
    ensures
        outside::url_safe(token@),
        exists|bytes: Seq<u8>| bytes.len() == 24 && token@ == #[trigger] outside::base64_text(bytes),
{
    let bytes: Vec<u8> = outside::random_bytes(24);
    let token: String = outside::base64_encode(&bytes);
    assert(token@ == outside::base64_text(bytes@));
    token
}

} // verus!
