//! What the door and the menus are for: only a genuine cookie, the token itself
//! or an installation without one lets anyone in, and what is offered is what
//! is there.

use vstd::prelude::*;
use vstd::utf8::{decode_utf8, encode_utf8, valid_utf8};

use crate::access;
use crate::access::{CallbackQuery, CallbackStep, SignIn};
use crate::auth;
use crate::auth::{GoogleView, UserInfo};
use crate::book_laws;
use crate::config;
use crate::order;
use crate::outside;
use crate::protocol::{Harness, LaneView};
use crate::repos;
use crate::repos::{CatalogView, GhRepo, ListStep, ListView, OwnerView, RepoView};
use crate::startup;
use crate::startup::{BindView, Installed, SourceView};
use crate::store::ErrorView;
use crate::text;
use crate::text_laws;

verus! {

// ---------------------------------------------------------------------------
// Cookies
// ---------------------------------------------------------------------------

proof fn lemma_cut(s: Seq<char>, c: char)
    ensures
        text::cut(s, c) matches Some((a, b)) ==> s == a.push(c) + b && !a.contains(c),
        text::cut(s, c) is None ==> !s.contains(c),
{
    text::lemma_place_of(s, c);
    if let Some((a, b)) = text::cut(s, c) {
        assert(s =~= a.push(c) + b);
        assert forall|i: int| 0 <= i < a.len() implies #[trigger] a[i] != c by {
            assert(a[i] == s[i]);
        }
    }
}

/// The payload says this of that, until then.
pub open spec fn is_payload(
    inner: Seq<char>,
    kind: Seq<char>,
    subject: Seq<char>,
    digits: Seq<char>,
    now: u64,
) -> bool {
    &&& inner == kind.push('|') + (subject.push('|') + digits)
    &&& text::parsed(digits) is Some
    &&& now <= text::parsed(digits)->0
}

/// The value is the text of such a payload, with the code that the key gives.
pub open spec fn is_genuine(
    key: Seq<u8>,
    value: Seq<char>,
    encoded: Seq<char>,
    inner: Seq<char>,
) -> bool {
    &&& value == encoded.push('.') + outside::base64_text(
        outside::hmac_sha256(key, encode_utf8(encoded)),
    )
    &&& outside::base64_bytes(encoded) is Some
    &&& valid_utf8(outside::base64_bytes(encoded)->0)
    &&& inner == decode_utf8(outside::base64_bytes(encoded)->0)
}

/// A cookie is believed only where it carries the code of its own text under
/// the key, is of the kind that is asked for, and has not expired.
pub proof fn only_genuine_cookies_are_believed(
    key: Seq<u8>,
    kind: Seq<char>,
    value: Seq<char>,
    now: u64,
    subject: Seq<char>,
)
    requires
        auth::verified(key, kind, value, now) == Some(subject),
    ensures
        exists|encoded: Seq<char>, inner: Seq<char>, digits: Seq<char>| #[trigger]
            is_genuine(key, value, encoded, inner) && #[trigger] is_payload(
                inner,
                kind,
                subject,
                digits,
                now,
            ),
{
    lemma_cut(value, '.');
    let (encoded, code) = text::cut(value, '.')->0;
    let inner = decode_utf8(outside::base64_bytes(encoded)->0);
    lemma_cut(inner, '|');
    let (got, rest) = text::cut(inner, '|')->0;
    lemma_cut(rest, '|');
    let (who, digits) = text::cut(rest, '|')->0;
    assert(is_genuine(key, value, encoded, inner));
    assert(is_payload(inner, kind, subject, digits, now));
}

/// A login is good for thirty days, a sign-in for ten minutes.
pub proof fn logins_last_thirty_days(now: u64)
    requires
        now <= 1_000_000_000_000,
    ensures
        auth::expiry_of(now, auth::SESSION_SECONDS) == now + 30 * 24 * 60 * 60,
        auth::expiry_of(now, auth::STATE_SECONDS) == now + 10 * 60,
{
}

/// The cookies are named, locked down and sent where they belong.
pub proof fn cookies_are_locked_down(value: Seq<char>)
    ensures
        (auth::SESSION_COOKIE@ + "="@ + value).is_prefix_of(auth::session_cookie_text(value)),
        text::holds(auth::session_cookie_text(value), "; Path=/; HttpOnly; Secure; SameSite=Lax; "@),
        (auth::STATE_COOKIE@ + "="@ + value).is_prefix_of(auth::state_cookie_text(value)),
        text::holds(
            auth::state_cookie_text(value),
            "; Path=/auth; HttpOnly; Secure; SameSite=Lax; "@,
        ),
        auth::SESSION_COOKIE@ != auth::STATE_COOKIE@,
{
    reveal_strlit("ceilidh_session");
    reveal_strlit("ceilidh_oauth_state");
    assert("ceilidh_session"@.len() == 15 && "ceilidh_oauth_state"@.len() == 19);
    reveal_strlit("; Path=/; HttpOnly; Secure; SameSite=Lax; Max-Age=");
    reveal_strlit("; Path=/; HttpOnly; Secure; SameSite=Lax; ");
    reveal_strlit("; Path=/auth; HttpOnly; Secure; SameSite=Lax; Max-Age=");
    reveal_strlit("; Path=/auth; HttpOnly; Secure; SameSite=Lax; ");
    let a = auth::SESSION_COOKIE@ + "="@ + value;
    let rest = "; Path=/; HttpOnly; Secure; SameSite=Lax; Max-Age="@;
    let wanted = "; Path=/; HttpOnly; Secure; SameSite=Lax; "@;
    let cookie = auth::session_cookie_text(value);
    assert(cookie.take(a.len() as int) =~= a);
    assert(cookie.subrange(a.len() as int, (a.len() + wanted.len()) as int) =~= wanted);
    assert(text::occurs_at(cookie, wanted, a.len() as int));
    let b = auth::STATE_COOKIE@ + "="@ + value;
    let wanted_too = "; Path=/auth; HttpOnly; Secure; SameSite=Lax; "@;
    let other = auth::state_cookie_text(value);
    assert(other.take(b.len() as int) =~= b);
    assert(other.subrange(b.len() as int, (b.len() + wanted_too.len()) as int) =~= wanted_too);
    assert(text::occurs_at(other, wanted_too, b.len() as int));
}

// ---------------------------------------------------------------------------
// Who gets in
// ---------------------------------------------------------------------------

proof fn lemma_query_holds(query: Seq<char>, token: Seq<char>)
    requires
        access::query_has(query, token),
    ensures
        text::holds(query, "token="@ + token),
    decreases query.len(),
{
    reveal_strlit("token=");
    reveal_strlit("token");
    text::lemma_place_of(query, '&');
    let p = text::place_of(query, '&');
    let first = query.take(p);
    if text::cut(first, '=') == Some(("token"@, token)) {
        lemma_cut(first, '=');
        assert("token"@.push('=') =~= "token="@);
        text::parts_are_held(Seq::empty(), first, query.skip(p));
        assert(Seq::<char>::empty() + first + query.skip(p) =~= query);
        assert(first == "token="@ + token);
    } else {
        let rest = query.skip(p + 1);
        lemma_query_holds(rest, token);
        text::parts_are_held(query.take(p + 1), rest, Seq::empty());
        assert(query.take(p + 1) + rest + Seq::<char>::empty() =~= query);
        text::parts_of_parts_are_held(query, rest, "token="@ + token);
    }
}

/// Where a token is set, whoever does not show it, in the header or in the
/// query, needs a login that is believed.
pub proof fn strangers_are_kept_out(
    token: Seq<char>,
    header: Option<Seq<char>>,
    query: Option<Seq<char>>,
    key: Seq<u8>,
    cookies: Option<Seq<char>>,
    now: u64,
)
    requires
        header != Some("Bearer "@ + token),
        query matches Some(query) ==> !text::holds(query, "token="@ + token),
        cookies matches Some(header) ==> (auth::cookie_in(header, auth::SESSION_COOKIE@) matches Some(
            value,
        ) ==> auth::verified(key, "session"@, value, now) is None),
    ensures
        !access::admitted(Some(token), header, query, key, cookies, now),
{
    if let Some(query) = query {
        if access::query_has(query, token) {
            lemma_query_holds(query, token);
        }
    }
}

/// The token lets through, in the header or alone in the query, and without a
/// token everyone is let through.
pub proof fn the_token_admits(
    token: Seq<char>,
    header: Option<Seq<char>>,
    query: Option<Seq<char>>,
    key: Seq<u8>,
    cookies: Option<Seq<char>>,
    now: u64,
)
    ensures
        access::admitted(Some(token), Some("Bearer "@ + token), query, key, cookies, now),
        !token.contains('&') ==> access::admitted(
            Some(token),
            header,
            Some("token="@ + token),
            key,
            cookies,
            now,
        ),
        access::admitted(None, header, query, key, cookies, now),
{
    if !token.contains('&') {
        reveal_strlit("token=");
        reveal_strlit("token");
        let asked = "token="@ + token;
        assert forall|i: int| 0 <= i < asked.len() implies #[trigger] asked[i] != '&' by {
            if i >= 6 {
                assert(asked[i] == token[i - 6]);
            }
        }
        text::lemma_place_is(asked, '&', asked.len() as int);
        assert(asked.take(asked.len() as int) =~= asked);
        text::lemma_place_is(asked, '=', 5);
        assert(asked.take(5) =~= "token"@);
        assert(asked.skip(6) =~= token);
        assert(access::query_has(asked, token));
    }
}

/// A sign-in succeeds exactly for an email that Google verified and the
/// operator listed, in capitals or not.
pub proof fn only_listed_emails_sign_in(
    google: GoogleView,
    info: Option<UserInfo>,
    key: Seq<u8>,
    now: u64,
    end: SignIn,
)
    requires
        access::sign_in_ends(google, info, key, now, end),
    ensures
        end is Done <==> info is Some && info->0.email is Some && info->0.email_verified
            && google.allowed_emails.contains(
            text::lowered(text::trimmed(info->0.email->0@)),
        ),
{
}

/// A browser goes on to the exchange only with the code that Google sent and
/// the state that its own cookie proves.
pub proof fn an_exchange_needs_the_state(
    google: bool,
    query: CallbackQuery,
    key: Seq<u8>,
    cookies: Option<Seq<char>>,
    now: u64,
    code: String,
)
    requires
        access::callback_step(google, query, key, cookies, now, CallbackStep::Exchange { code }),
    ensures
        google,
        query.error is None,
        query.code is Some,
        code@ == query.code->0@,
        query.state is Some,
        cookies is Some,
        auth::cookie_in(cookies->0, auth::STATE_COOKIE@) is Some,
        auth::verified(key, "state"@, auth::cookie_in(cookies->0, auth::STATE_COOKIE@)->0, now)
            == Some(query.state->0@),
{
}

/// Where the item stands in a comma-separated list.
pub open spec fn is_item(list: Seq<char>, from: int, to: int) -> bool {
    &&& 0 <= from <= to <= list.len()
    &&& from == 0 || list[from - 1] == ','
    &&& to == list.len() || list[to] == ','
    &&& forall|i: int| from <= i < to ==> #[trigger] list[i] != ','
}

proof fn lemma_emails(list: Seq<char>, from: int, to: int)
    requires
        is_item(list, from, to),
        text::lowered(text::trimmed(list.subrange(from, to))).len() > 0,
    ensures
        auth::email_list(list).contains(text::lowered(text::trimmed(list.subrange(from, to)))),
    decreases list.len(),
{
    let wanted = text::lowered(text::trimmed(list.subrange(from, to)));
    text::lemma_place_of(list, ',');
    let p = text::place_of(list, ',');
    let first = auth::email_key(list.take(p));
    let all = auth::email_list(list);
    if from == 0 {
        text::lemma_place_is(list, ',', to);
        assert(list.take(p) =~= list.subrange(from, to));
        assert(all[0] == wanted);
    } else {
        assert(list[from - 1] == ',');
        if from - 1 < p {
            assert(list[from - 1] != ',');
        }
        let rest = list.skip(p + 1);
        let (a, b) = (from - p - 1, to - p - 1);
        assert(a == 0 || rest[a - 1] == list[from - 1]);
        assert(b == rest.len() || rest[b] == list[to]);
        assert forall|i: int| a <= i < b implies #[trigger] rest[i] != ',' by {
            assert(rest[i] == list[i + p + 1]);
        }
        assert(rest.subrange(a, b) =~= list.subrange(from, to));
        lemma_emails(rest, a, b);
        let later = auth::email_list(rest);
        let k = later.index_of(wanted);
        if first.len() > 0 {
            assert(all[k + 1] == wanted);
        } else {
            assert(all[k] == wanted);
        }
    }
}

/// Every email of the operator's list is on it, without the space around it and
/// in lower case.
pub proof fn every_listed_email_is_allowed(list: Seq<char>, from: int, to: int)
    requires
        is_item(list, from, to),
        !text::is_blank(list.subrange(from, to)),
    ensures
        auth::email_list(list).contains(text::lowered(text::trimmed(list.subrange(from, to)))),
{
    text::blank_text_trims_to_nothing(list.subrange(from, to));
    lemma_emails(list, from, to);
}

/// Google's sign-in is on only where the client, its secret, the address and
/// at least one email are set.
pub proof fn google_needs_every_piece(
    client_id: Option<Seq<char>>,
    client_secret: Option<Seq<char>>,
    public_url: Option<Seq<char>>,
    allowed_emails: Option<Seq<char>>,
)
    ensures
        ({
            let google = auth::google_from_env(
                client_id,
                client_secret,
                public_url,
                allowed_emails,
            );
            &&& google is Some ==> client_id == Some(google->0.client_id) && client_secret == Some(
                google->0.client_secret,
            ) && google->0.allowed_emails.len() > 0 && allowed_emails is Some
                && google->0.allowed_emails == auth::email_list(allowed_emails->0)
            &&& client_id is None || client_secret is None || public_url is None
                || allowed_emails is None ==> google is None
            &&& client_id is Some && client_secret is Some && public_url is Some
                && allowed_emails is Some && !text::is_blank(client_id->0) && !text::is_blank(
                client_secret->0,
            ) && !text::is_blank(public_url->0) && auth::email_list(allowed_emails->0).len() > 0
                ==> google is Some
        }),
{
}

/// Google is sent the client, where to come back to, and the state.
pub proof fn google_is_sent_the_state(google: GoogleView, state: Seq<char>)
    ensures
        text::holds(auth::authorize_of(google, state), "state="@ + auth::url_text(state)),
        text::holds(
            auth::authorize_of(google, state),
            "client_id="@ + auth::url_text(google.client_id),
        ),
        text::holds(
            auth::authorize_of(google, state),
            "redirect_uri="@ + auth::url_text(google.public_url + "/auth/callback"@),
        ),
        text::occurs_at(
            auth::authorize_of(google, state),
            "https://accounts.google.com/o/oauth2/v2/auth?"@,
            0,
        ),
{
    reveal_strlit("state");
    reveal_strlit("state=");
    reveal_strlit("=");
    reveal_strlit("client_id");
    reveal_strlit("client_id=");
    reveal_strlit("redirect_uri");
    reveal_strlit("redirect_uri=");
    assert("state"@ + "="@ =~= "state="@);
    assert("client_id"@ + "="@ =~= "client_id="@);
    assert("redirect_uri"@ + "="@ =~= "redirect_uri="@);
    let start = "https://accounts.google.com/o/oauth2/v2/auth?"@;
    let client = auth::param("client_id"@, google.client_id);
    let redirect = auth::param("redirect_uri"@, auth::redirect_of(google));
    let stated = auth::param("state"@, state);
    let url = auth::authorize_of(google, state);
    let a = start + client;
    let b = a + "&"@ + redirect;
    let c = b + "&"@ + auth::param("response_type"@, "code"@) + "&"@ + auth::param(
        "scope"@,
        "openid email"@,
    ) + "&"@;
    let d = c + stated;
    assert(url == d + "&"@ + auth::param("prompt"@, "select_account"@) + "&"@ + auth::param(
        "access_type"@,
        "online"@,
    ));
    lemma_prefix_four(
        d,
        "&"@,
        auth::param("prompt"@, "select_account"@),
        "&"@,
        auth::param("access_type"@, "online"@),
    );
    lemma_held_in(d, url, c, stated);
    assert(d.take(c.len() as int) =~= c);
    assert(c.take(b.len() as int) =~= b);
    lemma_prefix_trans(b, c, url);
    lemma_held_in(b, url, a + "&"@, redirect);
    assert(b.take(a.len() as int) =~= a);
    lemma_prefix_trans(a, b, url);
    lemma_held_in(a, url, start, client);
    assert(a.take(start.len() as int) =~= start);
    lemma_prefix_trans(start, a, url);
    assert(url.subrange(0, start.len() as int) =~= start);
}

proof fn lemma_prefix_four(
    s: Seq<char>,
    a: Seq<char>,
    b: Seq<char>,
    c: Seq<char>,
    d: Seq<char>,
)
    ensures
        s.is_prefix_of(s + a + b + c + d),
{
    assert((s + a + b + c + d).take(s.len() as int) =~= s);
}

proof fn lemma_prefix_trans(a: Seq<char>, b: Seq<char>, c: Seq<char>)
    requires
        a.is_prefix_of(b),
        b.is_prefix_of(c),
    ensures
        a.is_prefix_of(c),
{
    assert(a =~= c.take(a.len() as int));
}

proof fn lemma_held_in(prefix: Seq<char>, s: Seq<char>, front: Seq<char>, part: Seq<char>)
    requires
        prefix.is_prefix_of(s),
        prefix == front + part,
    ensures
        text::holds(s, part),
{
    let back = s.skip(prefix.len() as int);
    text::parts_are_held(front, part, back);
    assert(front + part + back =~= s);
}

// ---------------------------------------------------------------------------
// What is offered
// ---------------------------------------------------------------------------

/// Every row of the menu is a lane that is offered, at any effort.
pub proof fn the_menu_is_offered(i: int, effort: Option<Seq<char>>)
    requires
        0 <= i < config::menu().len(),
    ensures
        config::offered(
            LaneView { harness: config::menu()[i].harness, model: config::menu()[i].model, effort },
        ),
{
    let lane = LaneView {
        harness: config::menu()[i].harness,
        model: config::menu()[i].model,
        effort,
    };
    assert(config::stands_for(config::menu()[i], lane));
}

/// What is offered beside the mock and the default stands on the menu.
pub proof fn only_the_menu_is_offered(lane: LaneView)
    requires
        config::offered(lane),
        lane.harness != Harness::Mock,
        lane.model != "opus"@ || lane.harness != Harness::ClaudeCode,
    ensures
        exists|i: int|
            0 <= i < config::menu().len() && (#[trigger] config::menu()[i]).harness == lane.harness
                && config::menu()[i].model == lane.model,
{
}

/// The cookies are signed with the operator's own secret, else with the token.
pub proof fn cookies_are_signed_with_a_secret(secret: Option<Seq<char>>, token: Option<Seq<char>>)
    ensures
        secret is Some && !text::is_blank(secret->0) ==> config::cookie_key(secret, token)
            == secret->0,
        (secret is None || text::is_blank(secret->0)) && token is Some && token->0.len() > 0
            ==> config::cookie_key(secret, token) == token->0,
{
}

/// What the operator names is offered; where they name nothing, exactly what is
/// installed is, and the mock only in want of anything.
pub proof fn what_is_there_is_offered(named: Seq<Harness>, installed: Installed, mock: bool, i: int)
    ensures
        0 <= i < named.len() ==> startup::offer_of(named, installed, mock).contains(named[i]),
        mock ==> startup::offer_of(named, installed, mock).contains(Harness::Mock),
        named.len() == 0 ==> (startup::offer_of(named, installed, mock).contains(
            Harness::ClaudeCode,
        ) <==> installed.claude_code),
        named.len() == 0 ==> (startup::offer_of(named, installed, mock).contains(Harness::Codex)
            <==> installed.codex),
        named.len() == 0 ==> (startup::offer_of(named, installed, mock).contains(Harness::Cursor)
            <==> installed.cursor),
{
    let a = startup::where_installed(installed.claude_code, Harness::ClaudeCode);
    let b = startup::where_installed(installed.codex, Harness::Codex);
    let c = startup::where_installed(installed.cursor, Harness::Cursor);
    let found = startup::found(installed);
    let offer = startup::offer_of(named, installed, mock);
    if 0 <= i < named.len() {
        assert(offer[i] == named[i]);
    }
    if mock && offer.len() > 0 {
        if !named.contains(Harness::Mock) {
            assert(offer.contains(offer.last()));
        }
    }
    if named.len() == 0 {
        if installed.claude_code {
            assert(found[0] == Harness::ClaudeCode);
            assert(offer[0] == Harness::ClaudeCode);
        }
        if installed.codex {
            assert(found[a.len() as int] == Harness::Codex);
            assert(offer[a.len() as int] == Harness::Codex);
        }
        if installed.cursor {
            assert(found[(a + b).len() as int] == Harness::Cursor);
            assert(offer[(a + b).len() as int] == Harness::Cursor);
        }
    }
}

/// The address that is opened is one that this machine reaches, at the port
/// that is bound, and carries the token.
pub proof fn the_address_carries_the_token(bind: BindView, token: Seq<char>)
    ensures
        bind.unspecified ==> startup::url_of(bind) == "http://127.0.0.1:"@ + text::decimal(
            bind.port as nat,
        ),
        !bind.unspecified && !bind.ipv6 ==> startup::url_of(bind) == "http://"@ + bind.ip + ":"@
            + text::decimal(bind.port as nat),
        startup::sign_in_of(bind, token) == startup::url_of(bind) + "/?token="@ + token,
{
    reveal_strlit("http://127.0.0.1:");
    reveal_strlit("http://");
    reveal_strlit("127.0.0.1");
    reveal_strlit(":");
    assert("http://"@ + "127.0.0.1"@ + ":"@ =~= "http://127.0.0.1:"@);
}

// ---------------------------------------------------------------------------
// The picker
// ---------------------------------------------------------------------------

proof fn lemma_logins_distinct(rows: Seq<RepoView>)
    ensures
        forall|a: int, b: int|
            0 <= a < b < repos::logins(rows).len() ==> (#[trigger] repos::logins(rows)[a]) != (
            #[trigger] repos::logins(rows)[b]),
    decreases rows.len(),
{
    if rows.len() > 0 {
        lemma_logins_distinct(rows.drop_last());
        let rest = repos::logins(rows.drop_last());
        let all = repos::logins(rows);
        assert forall|a: int, b: int| 0 <= a < b < all.len() implies (#[trigger] all[a]) != (
        #[trigger] all[b]) by {
            if b < rest.len() {
                assert(all[a] == rest[a] && all[b] == rest[b]);
            } else {
                assert(rest.contains(rest[a]));
            }
        }
    }
}

/// The picker leads with what was pushed last: in each owner's list, and among
/// the owners. Each owner stands in it once.
pub proof fn the_picker_leads_with_the_last_push(
    rows: Seq<RepoView>,
    owners: Seq<OwnerView>,
    k: int,
    a: int,
    b: int,
)
    requires
        repos::is_picker(rows, owners),
        0 <= k < owners.len(),
    ensures
        0 <= a < b < owners[k].repos.len() ==> {
            &&& owners[k].repos[a].pushed_at is None ==> owners[k].repos[b].pushed_at is None
            &&& owners[k].repos[a].pushed_at is Some && owners[k].repos[b].pushed_at is Some
                ==> owners[k].repos[a].pushed_at->0 >= owners[k].repos[b].pushed_at->0
        },
        0 <= a < b < owners.len() ==> owners[a].login != owners[b].login,
        0 <= a < b < owners.len() && owners[a].repos.len() > 0 && owners[b].repos.len() > 0
            && owners[a].repos[0].pushed_at is Some && owners[b].repos[0].pushed_at is Some
            ==> owners[a].repos[0].pushed_at->0 >= owners[b].repos[0].pushed_at->0,
{
    let groups = choose|groups: Seq<OwnerView>| #[trigger]
        repos::is_grouped(rows, groups) && order::is_by_newest(groups, repos::latest(), owners);
    let outer = choose|o: Seq<int>| #[trigger]
        order::is_newest_first(groups.map_values(repos::latest()), o) && owners == order::arranged(
            groups,
            o,
        );
    let g = outer[k];
    assert(owners[k] == groups[g]);
    if 0 <= a < b < owners[k].repos.len() {
        book_laws::the_newest_come_first(
            repos::owned_by(rows, repos::logins(rows)[g]),
            repos::pushed(),
            owners[k].repos,
            a,
            b,
        );
    }
    if 0 <= a < b < owners.len() {
        book_laws::the_newest_come_first(groups, repos::latest(), owners, a, b);
        lemma_logins_distinct(rows);
        assert(owners[a] == groups[outer[a]] && owners[b] == groups[outer[b]]);
        assert(order::leads(groups.map_values(repos::latest()), outer[a], outer[b]));
        assert(outer[a] != outer[b]);
    }
}

// ---------------------------------------------------------------------------
// Starting up, and asking GitHub
// ---------------------------------------------------------------------------

/// An address that others reach is bound only behind a token that the operator
/// supplied, more than blanks; one that only this machine reaches always is.
pub proof fn others_are_let_in_behind_a_token(token: Option<Seq<char>>)
    ensures
        startup::may_bind(true, token),
        !startup::may_bind(false, None),
        token is Some && text::is_blank(token->0) ==> !startup::may_bind(false, token),
        token is Some && !text::is_blank(token->0) ==> startup::may_bind(false, token),
{
}

/// What a small hexadecimal digit stands for.
pub open spec fn small_hex_value(c: char) -> int {
    if '0' <= c <= '9' {
        c as u32 - '0' as u32
    } else if 'a' <= c <= 'f' {
        c as u32 - 'a' as u32 + 10
    } else {
        -1
    }
}

/// A minted token tells its bytes, two digits each, in order.
pub proof fn tokens_tell_their_bytes(bytes: Seq<u8>, i: int)
    requires
        0 <= i < bytes.len(),
    ensures
        startup::hex_of(bytes).len() == 2 * bytes.len(),
        small_hex_value(startup::hex_of(bytes)[2 * i]) * 16 + small_hex_value(
            startup::hex_of(bytes)[2 * i + 1],
        ) == bytes[i],
    decreases bytes.len(),
{
    startup::hex_is_plain(bytes);
    let rest = bytes.drop_last();
    startup::hex_is_plain(rest);
    let all = startup::hex_of(bytes);
    if i < rest.len() {
        tokens_tell_their_bytes(rest, i);
        assert(all[2 * i] == startup::hex_of(rest)[2 * i]);
        assert(all[2 * i + 1] == startup::hex_of(rest)[2 * i + 1]);
    } else {
        let n = bytes.last() as nat;
        assert(all[2 * i] == outside::hex_lower(n / 16));
        assert(all[2 * i + 1] == outside::hex_lower(n % 16));
        assert(small_hex_value(outside::hex_lower(n / 16)) == n / 16);
        assert(small_hex_value(outside::hex_lower(n % 16)) == n % 16);
    }
}

/// A list of repositories is given again for five minutes, and then asked for
/// anew; without a token there is nothing to ask.
pub proof fn lists_are_good_for_five_minutes(
    catalog: CatalogView,
    at: u128,
    list: ListView,
    now: u128,
    tokens: usize,
    age: Option<u128>,
)
    requires
        catalog.tokens.len() > 0,
        catalog.kept == Some((at, list)),
    ensures
        now - at < 5 * 60 * 1_000_000_000 ==> repos::at_hand(catalog, now) == Some(list),
        now - at >= 5 * 60 * 1_000_000_000 ==> repos::at_hand(catalog, now) is None,
        repos::step_for(0, age) == ListStep::Unavailable,
        tokens > 0 && age is None ==> repos::step_for(tokens, age) == ListStep::Fetch,
        tokens > 0 && age is Some ==> (repos::step_for(tokens, age) == ListStep::Cached
            <==> age->0 < 5 * 60 * 1_000_000_000),
        tokens > 0 && age is Some && age->0 >= 5 * 60 * 1_000_000_000 ==> repos::step_for(
            tokens,
            age,
        ) == ListStep::Fetch,
{
}

/// Pages are asked for one after the other until one is short, and no more than
/// five.
pub proof fn pages_are_turned_until_one_is_short(page: usize, count: usize)
    ensures
        count < 100 ==> repos::next_page(page, count) is None,
        page >= 5 ==> repos::next_page(page, count) is None,
        count >= 100 && page < 5 ==> repos::next_page(page, count) is Some && repos::next_page(
            page,
            count,
        )->0 == page + 1,
{
}

/// A repository is offered as GitHub tells of it, to be cloned from its own
/// address.
pub proof fn repositories_are_offered_as_they_are(repo: GhRepo)
    ensures
        repos::choice_of(repo).url == repo.clone_url@,
        repos::choice_of(repo).full_name == repo.full_name@,
        repos::choice_of(repo).name == repo.name@,
        repos::choice_of(repo).owner == repo.owner.login@,
        repos::choice_of(repo).private == repo.private,
        repos::choice_of(repo).pushed_at == repo.pushed_at,
{
}

proof fn lemma_tokens(list: Seq<char>, from: int, to: int)
    requires
        is_item(list, from, to),
        text::trimmed(list.subrange(from, to)).len() > 0,
    ensures
        repos::token_list(list).contains(text::trimmed(list.subrange(from, to))),
    decreases list.len(),
{
    let wanted = text::trimmed(list.subrange(from, to));
    text::lemma_place_of(list, ',');
    let p = text::place_of(list, ',');
    let first = text::trimmed(list.take(p));
    let all = repos::token_list(list);
    if from == 0 {
        text::lemma_place_is(list, ',', to);
        assert(list.take(p) =~= list.subrange(from, to));
        assert(all[0] == wanted);
    } else {
        assert(list[from - 1] == ',');
        if from - 1 < p {
            assert(list[from - 1] != ',');
        }
        let rest = list.skip(p + 1);
        let (a, b) = (from - p - 1, to - p - 1);
        assert(a == 0 || rest[a - 1] == list[from - 1]);
        assert(b == rest.len() || rest[b] == list[to]);
        assert forall|i: int| a <= i < b implies #[trigger] rest[i] != ',' by {
            assert(rest[i] == list[i + p + 1]);
        }
        assert(rest.subrange(a, b) =~= list.subrange(from, to));
        lemma_tokens(rest, a, b);
        let later = repos::token_list(rest);
        let k = later.index_of(wanted);
        if first.len() > 0 {
            assert(all[k + 1] == wanted);
        } else {
            assert(all[k] == wanted);
        }
    }
}

/// Every token of a list is asked with, without the space around it; one that
/// stands alone is taken as it stands.
pub proof fn every_token_is_asked_with(list: Seq<char>, from: int, to: int)
    requires
        is_item(list, from, to),
        !text::is_blank(list.subrange(from, to)),
    ensures
        list.contains(',') ==> repos::tokens_of(Some(list)).contains(
            text::trimmed(list.subrange(from, to)),
        ),
        !list.contains(',') ==> repos::tokens_of(Some(list)).len() == 1 && repos::tokens_of(
            Some(list),
        )[0] == list,
        repos::tokens_of(None).len() == 0,
{
    text::blank_text_trims_to_nothing(list.subrange(from, to));
    if list.contains(',') {
        lemma_tokens(list, from, to);
    } else if text::is_blank(list) {
        assert forall|i: int| 0 <= i < list.subrange(from, to).len() implies text::is_space(
            #[trigger] list.subrange(from, to)[i],
        ) by {
            assert(list.subrange(from, to)[i] == list[i + from]);
        }
    }
}

// ---------------------------------------------------------------------------
// Cookies among others
// ---------------------------------------------------------------------------

/// Text between blanks trims to itself.
proof fn lemma_trims_to(front: Seq<char>, middle: Seq<char>, back: Seq<char>)
    requires
        text::is_blank(front),
        text::is_blank(back),
        middle.len() > 0,
        !text::is_space(middle[0]),
        !text::is_space(middle.last()),
    ensures
        text::trimmed(front + middle + back) == middle,
{
    lemma_start_trims(front, middle + back);
    assert(front + middle + back =~= front + (middle + back));
    assert((middle + back)[0] == middle[0]);
    lemma_end_trims(middle, back);
}

proof fn lemma_start_trims(front: Seq<char>, rest: Seq<char>)
    requires
        text::is_blank(front),
        rest.len() > 0,
        !text::is_space(rest[0]),
    ensures
        text::trim_start(front + rest) == rest,
    decreases front.len(),
{
    let all = front + rest;
    if front.len() > 0 {
        assert(text::is_space(front[0]));
        assert(all[0] == front[0]);
        let less = front.skip(1);
        assert forall|i: int| 0 <= i < less.len() implies text::is_space(#[trigger] less[i]) by {
            assert(less[i] == front[i + 1]);
        }
        assert(all.skip(1) =~= less + rest);
        lemma_start_trims(less, rest);
    } else {
        assert(all =~= rest);
    }
}

proof fn lemma_end_trims(rest: Seq<char>, back: Seq<char>)
    requires
        text::is_blank(back),
        rest.len() > 0,
        !text::is_space(rest.last()),
    ensures
        text::trim_end(rest + back) == rest,
    decreases back.len(),
{
    let all = rest + back;
    if back.len() > 0 {
        assert(text::is_space(back[back.len() - 1]));
        assert(all.last() == back.last());
        let less = back.drop_last();
        assert forall|i: int| 0 <= i < less.len() implies text::is_space(#[trigger] less[i]) by {
            assert(less[i] == back[i]);
        }
        assert(all.drop_last() =~= rest + less);
        lemma_end_trims(rest, less);
    } else {
        assert(all =~= rest);
    }
}

/// A pair of a cookie header is read by its name, with or without space around
/// the name and the value.
pub proof fn pairs_are_read_by_name(
    a: Seq<char>,
    name: Seq<char>,
    b: Seq<char>,
    c: Seq<char>,
    value: Seq<char>,
    d: Seq<char>,
)
    requires
        text::is_blank(a),
        text::is_blank(b),
        text::is_blank(c),
        text::is_blank(d),
        name.len() > 0,
        !text::is_space(name[0]),
        !text::is_space(name.last()),
        !name.contains('='),
        value.len() > 0,
        !text::is_space(value[0]),
        !text::is_space(value.last()),
    ensures
        auth::pair_value(a + (name + b + seq!['='] + c + value) + d, name) == Some(value),
{
    let key = name + b;
    let rest = c + value;
    let middle = name + b + seq!['='] + c + value;
    assert(middle[0] == name[0] && middle.last() == value.last());
    lemma_trims_to(a, middle, d);
    assert forall|i: int| 0 <= i < key.len() implies #[trigger] middle[i] != '=' by {
        if i < name.len() {
            assert(name[i] != '=');
            assert(middle[i] == name[i]);
        } else {
            assert(text::is_space(b[i - name.len()]));
            assert(middle[i] == b[i - name.len()]);
        }
    }
    text::lemma_place_is(middle, '=', key.len() as int);
    assert(middle.take(key.len() as int) =~= key);
    assert(middle.skip(key.len() as int + 1) =~= rest);
    lemma_trims_to(Seq::empty(), name, b);
    assert(Seq::<char>::empty() + name + b =~= key);
    lemma_trims_to(c, value, Seq::empty());
    assert(c + value + Seq::<char>::empty() =~= rest);
}

/// A cookie is found wherever it stands among others; of two under one name the
/// first counts.
pub proof fn cookies_are_found_among_others(
    header: Seq<char>,
    name: Seq<char>,
    from: int,
    to: int,
)
    requires
        text_laws::is_part(header, ';', from, to),
        forall|a: int, b: int| #[trigger]
            text_laws::is_part(header, ';', a, b) && b < from ==> auth::pair_value(
                header.subrange(a, b),
                name,
            ) is None,
        auth::pair_value(header.subrange(from, to), name) is Some,
    ensures
        auth::cookie_in(header, name) == auth::pair_value(header.subrange(from, to), name),
    decreases header.len(),
{
    text::lemma_place_of(header, ';');
    let p = text::place_of(header, ';');
    assert(header.take(p) =~= header.subrange(0, p));
    if from == 0 {
        text::lemma_place_is(header, ';', to);
    } else {
        if from - 1 < p {
            assert(header[from - 1] != ';');
        }
        assert(text_laws::is_part(header, ';', 0, p));
        let rest = header.skip(p + 1);
        let (a, b) = (from - p - 1, to - p - 1);
        assert(rest.subrange(a, b) =~= header.subrange(from, to));
        assert(a == 0 || rest[a - 1] == header[from - 1]);
        assert(b == rest.len() || rest[b] == header[to]);
        assert forall|i: int| a <= i < b implies #[trigger] rest[i] != ';' by {
            assert(rest[i] == header[i + p + 1]);
        }
        assert forall|c: int, d: int| #[trigger]
            text_laws::is_part(rest, ';', c, d) && d < a implies auth::pair_value(
            rest.subrange(c, d),
            name,
        ) is None by {
            text_laws::parts_of_the_rest_are_parts(header, ';', c, d);
        }
        cookies_are_found_among_others(rest, name, a, b);
    }
}

/// The cookies say how long they last: thirty days, ten minutes, or not at all
/// for one that is cleared.
pub proof fn cookies_say_how_long_they_last(value: Seq<char>, name: Seq<char>, path: Seq<char>)
    ensures
        ends_with(
            auth::session_cookie_text(value),
            "Max-Age="@ + text::decimal((30 * 24 * 60 * 60) as nat),
        ),
        ends_with(
            auth::state_cookie_text(value),
            "Max-Age="@ + text::decimal((10 * 60) as nat),
        ),
        ends_with(auth::cleared_cookie_text(name, path), "Max-Age=0"@),
        (name + "=;"@).is_prefix_of(auth::cleared_cookie_text(name, path)),
        text::holds(auth::cleared_cookie_text(name, path), " Path="@ + path + ";"@),
{
    reveal_strlit("Max-Age=");
    reveal_strlit("Max-Age=0");
    reveal_strlit("; Path=/; HttpOnly; Secure; SameSite=Lax; Max-Age=");
    reveal_strlit("; Path=/auth; HttpOnly; Secure; SameSite=Lax; Max-Age=");
    reveal_strlit("; HttpOnly; Secure; SameSite=Lax; Max-Age=0");
    reveal_strlit("=; Path=");
    reveal_strlit("=;");
    reveal_strlit(" Path=");
    reveal_strlit(";");
    let a = auth::session_cookie_text(value);
    let x = "Max-Age="@ + text::decimal((30 * 24 * 60 * 60) as nat);
    assert(a.skip(a.len() - x.len()) =~= x);
    let b = auth::state_cookie_text(value);
    let y = "Max-Age="@ + text::decimal((10 * 60) as nat);
    assert(b.skip(b.len() - y.len()) =~= y);
    let c = auth::cleared_cookie_text(name, path);
    assert(c.skip(c.len() - 9) =~= "Max-Age=0"@);
    assert(c.take(name.len() as int + 2) =~= name + "=;"@);
    let z = " Path="@ + path + ";"@;
    let at = name.len() + 2;
    assert(c.subrange(at as int, (at + z.len()) as int) =~= z);
    assert(text::occurs_at(c, z, at as int));
}

/// The text ends with the part.
pub open spec fn ends_with(s: Seq<char>, part: Seq<char>) -> bool {
    part.len() <= s.len() && s.skip(s.len() - part.len()) == part
}

/// A cookie never expires before it was made, and one that would outlast all
/// time lasts as long as can be told.
pub proof fn cookies_do_not_expire_early(now: u64, ttl: u64)
    ensures
        auth::expiry_of(now, ttl) >= now,
        now + ttl <= u64::MAX ==> auth::expiry_of(now, ttl) == now + ttl,
        now + ttl > u64::MAX ==> auth::expiry_of(now, ttl) == u64::MAX,
{
}

/// Cookies are always signed with something.
pub proof fn cookies_are_never_signed_with_nothing(
    secret: Option<Seq<char>>,
    token: Option<Seq<char>>,
)
    ensures
        config::cookie_key(secret, token).len() > 0,
{
    reveal_strlit("ceilidh-loopback");
    if secret is Some && secret->0.len() == 0 {
        assert(text::is_blank(secret->0));
    }
}

/// Google comes back to the public address, with one stroke before the path,
/// and is asked for a code and an email.
pub proof fn google_comes_back_to_the_public_address(
    client: Seq<char>,
    secret: Seq<char>,
    host: Seq<char>,
    emails: Seq<char>,
    google: GoogleView,
    state: Seq<char>,
)
    requires
        host.len() > 0,
        host.last() != '/',
    ensures
        auth::google_from_env(Some(client), Some(secret), Some(host.push('/')), Some(emails))
            matches Some(google) ==> google.public_url == host,
        auth::google_from_env(Some(client), Some(secret), Some(host), Some(emails)) matches Some(
            google,
        ) ==> google.public_url == host,
        auth::redirect_of(google) == google.public_url + "/auth/callback"@,
{
    assert(host.push('/').drop_last() =~= host);
    assert(text::strip_end(host, '/') == host);
    assert(text::strip_end(host.push('/'), '/') == host);
}

/// An address of the sixth version stands in brackets.
pub proof fn long_addresses_stand_in_brackets(bind: BindView)
    requires
        bind.ipv6,
        !bind.unspecified,
    ensures
        startup::url_of(bind) == "http://["@ + bind.ip + "]:"@ + text::decimal(bind.port as nat),
{
    reveal_strlit("http://[");
    reveal_strlit("http://");
    reveal_strlit("[");
    reveal_strlit("]");
    reveal_strlit(":");
    reveal_strlit("]:");
    assert("http://"@ + ("["@ + bind.ip + "]"@) + ":"@ + text::decimal(bind.port as nat)
        =~= "http://["@ + bind.ip + "]:"@ + text::decimal(bind.port as nat));
}

/// The operator is told where a token is kept, and whether it is new.
pub proof fn kept_tokens_are_told(path: Seq<char>)
    ensures
        text::holds(startup::source_words(SourceView::Saved(path)), "saved in "@ + path),
        text::holds(startup::source_words(SourceView::Minted(path)), "saved in "@ + path),
        text::occurs_at(startup::source_words(SourceView::Minted(path)), " (new"@, 0),
        !text::occurs_at(startup::source_words(SourceView::Saved(path)), " (new"@, 0),
{
    reveal_strlit(" (saved in ");
    reveal_strlit(" (new, saved in ");
    reveal_strlit(" (new");
    reveal_strlit("saved in ");
    let saved = startup::source_words(SourceView::Saved(path));
    let minted = startup::source_words(SourceView::Minted(path));
    let wanted = "saved in "@ + path;
    assert(saved.subrange(2, (2 + wanted.len()) as int) =~= wanted);
    assert(text::occurs_at(saved, wanted, 2));
    assert(minted.subrange(7, (7 + wanted.len()) as int) =~= wanted);
    assert(text::occurs_at(minted, wanted, 7));
    assert(minted.subrange(0, 5) =~= " (new"@);
    if text::occurs_at(saved, " (new"@, 0) {
        assert(saved[2] == saved.subrange(0, 5)[2]);
    }
}

/// The operator is warned exactly where nothing was named or found and the mock
/// was not asked for.
pub proof fn the_operator_is_warned(named: Seq<Harness>, installed: Installed, mock: bool)
    ensures
        named.len() > 0 ==> !startup::warns(named, installed, mock),
        mock ==> !startup::warns(named, installed, mock),
        installed.claude_code || installed.codex || installed.cursor ==> !startup::warns(
            named,
            installed,
            mock,
        ),
        named.len() == 0 && !mock && !installed.claude_code && !installed.codex
            && !installed.cursor ==> startup::warns(named, installed, mock),
{
}

/// GitHub is asked for what was pushed last, a hundred to the page.
pub proof fn github_is_asked_for_the_last_pushed(page: nat)
    ensures
        text::holds(
            repos::page_address(page),
            "sort=pushed&direction=desc&per_page="@ + text::decimal(100) + "&page="@
                + text::decimal(page),
        ),
        text::holds(repos::page_address(page), "affiliation=owner,organization_member&"@),
        text::occurs_at(repos::page_address(page), "https://api.github.com/user/repos?"@, 0),
{
    reveal_strlit("sort=pushed&direction=desc&per_page=");
    reveal_strlit("affiliation=owner,organization_member&");
    reveal_strlit("https://api.github.com/user/repos?");
    reveal_strlit(
        "https://api.github.com/user/repos?affiliation=owner,organization_member&sort=pushed&direction=desc&per_page=",
    );
    let a = "https://api.github.com/user/repos?"@;
    let b = "affiliation=owner,organization_member&"@;
    let c = "sort=pushed&direction=desc&per_page="@;
    let head =
        "https://api.github.com/user/repos?affiliation=owner,organization_member&sort=pushed&direction=desc&per_page="@;
    assert(a + b + c =~= head);
    let d = text::decimal(100);
    let e = "&page="@;
    let f = text::decimal(page);
    lemma_address(a, b, c, d, e, f);
}

proof fn lemma_address(
    a: Seq<char>,
    b: Seq<char>,
    c: Seq<char>,
    d: Seq<char>,
    e: Seq<char>,
    f: Seq<char>,
)
    ensures
        text::holds((a + b + c) + d + e + f, c + d + e + f),
        text::holds((a + b + c) + d + e + f, b),
        text::occurs_at((a + b + c) + d + e + f, a, 0),
{
    let tail = c + d + e + f;
    lemma_last_four(a + b, c, d, e, f);
    text::parts_are_held(a + b, tail, Seq::empty());
    assert(a + b + tail + Seq::<char>::empty() =~= a + b + tail);
    text::parts_are_held(a, b, tail);
    assert((a + b + tail).subrange(0, a.len() as int) =~= a);
}

proof fn lemma_last_four(
    x: Seq<char>,
    c: Seq<char>,
    d: Seq<char>,
    e: Seq<char>,
    f: Seq<char>,
)
    ensures
        x + c + d + e + f == x + (c + d + e + f),
{
    assert(x + c + d =~= x + (c + d));
    assert(x + (c + d) + e =~= x + (c + d + e));
    assert(x + (c + d + e) + f =~= x + (c + d + e + f));
}

/// Where GitHub could not be asked there is nothing to pick from, and why is
/// told.
pub proof fn no_list_is_no_picker(error: Option<Seq<char>>)
    ensures
        repos::empty_list(error).owners.len() == 0,
        !repos::empty_list(error).available,
        repos::empty_list(error).error == error,
{
}

/// A sign-in starts with a cookie for the state that Google is sent, under the
/// state's own name; without Google there is none.
pub proof fn sign_ins_start_with_the_state(
    google: Option<GoogleView>,
    key: Seq<u8>,
    nonce: Seq<char>,
    now: u64,
    login: Result<(Seq<char>, Seq<char>), ErrorView>,
)
    requires
        access::login_ends(google, key, nonce, now, login),
    ensures
        login is Ok <==> google is Some,
        login matches Err(error) ==> error.status == 404,
        login matches Ok((cookie, location)) ==> {
            &&& text::holds(location, "state="@ + auth::url_text(nonce))
            &&& exists|value: Seq<char>|
                (auth::STATE_COOKIE@ + "="@ + value).is_prefix_of(cookie)
                    && #[trigger] auth::cookie_safe(value) && (auth::no_bar(nonce)
                    ==> auth::verified(key, "state"@, value, now) == Some(nonce))
        },
{
    if let Ok((cookie, location)) = login {
        google_is_sent_the_state(google->0, nonce);
        let expiry = auth::expiry_of(now, auth::STATE_SECONDS);
        let value = auth::signed(key, "state"@, nonce, expiry);
        cookies_are_locked_down(value);
        cookies_do_not_expire_early(now, auth::STATE_SECONDS);
        assert(auth::cookie_safe(value));
        if auth::no_bar(nonce) {
            assert(auth::reads_back(key, "state"@, nonce, expiry, value));
            assert(auth::verified(key, "state"@, value, now) == Some(nonce));
        }
    }
}

/// A browser that is refused is shown why: what Google said, made harmless, or
/// which part of the sign-in was missing.
pub proof fn refusals_say_why(
    query: CallbackQuery,
    key: Seq<u8>,
    cookies: Option<Seq<char>>,
    now: u64,
    step: CallbackStep,
)
    requires
        access::callback_step(true, query, key, cookies, now, step),
    ensures
        query.error matches Some(error) ==> (step matches CallbackStep::Refuse { page }
            && text::holds(page@, "Google said: "@ + access::html_text(error@))),
        query.error is None && (query.code is None || query.state is None) ==> step is Refuse,
{
    if let CallbackStep::Refuse { page } = step {
        if query.error is Some {
            let why = "Google said: "@ + access::html_text(query.error->0@);
            lemma_page_holds(why);
        }
    }
}

proof fn lemma_page_holds(why: Seq<char>)
    ensures
        text::holds(access::refusal_page(why), why),
{
    text::parts_are_held(
        "<!doctype html><title>ceilidh</title><main style=\"font-family:system-ui;padding:2rem\"><h1>Not signed in</h1><p>"@,
        why,
        "</p><p><a href=\"/\">Back</a></p></main>"@,
    );
}

/// Whoever is not let in is told who they are taken for, made harmless; whoever
/// is let in leaves the state's cookie behind.
pub proof fn sign_ins_end_with_a_word(
    google: GoogleView,
    info: UserInfo,
    key: Seq<u8>,
    now: u64,
    end: SignIn,
)
    requires
        access::sign_in_ends(google, Some(info), key, now, end),
    ensures
        info.email is Some && info.email_verified && end is Refuse ==> text::holds(
            end->page@,
            access::html_text(info.email->0@) + " is not allowed in here."@,
        ),
        end is Refuse && (info.email is None || !info.email_verified) ==> text::holds(
            end->page@,
            "verified email"@,
        ),
        end is Done ==> (auth::STATE_COOKIE@ + "=;"@).is_prefix_of(end->cleared_state@)
            && text::holds(end->cleared_state@, " Path=/auth;"@) && (auth::SESSION_COOKIE@
            + "="@).is_prefix_of(end->session@),
{
    if let SignIn::Done { session, cleared_state } = end {
        cookies_say_how_long_they_last(Seq::empty(), auth::STATE_COOKIE@, "/auth"@);
        reveal_strlit(" Path=");
        reveal_strlit("/auth");
        reveal_strlit(";");
        reveal_strlit(" Path=/auth;");
        assert(" Path="@ + "/auth"@ + ";"@ =~= " Path=/auth;"@);
        let front = auth::SESSION_COOKIE@ + "="@;
        assert(session@.take(front.len() as int) =~= front);
    }
    if let SignIn::Refuse { page } = end {
        if info.email is Some && info.email_verified {
            lemma_page_holds(access::html_text(info.email->0@) + " is not allowed in here."@);
        } else {
            let why = "Google did not return a verified email address."@;
            reveal_strlit("Google did not return a verified email address.");
            reveal_strlit("verified email");
            lemma_page_holds(why);
            assert(why.subrange(24, 38) =~= "verified email"@);
            assert(text::occurs_at(why, "verified email"@, 24));
            text::parts_of_parts_are_held(page@, why, "verified email"@);
        }
    }
}

/// Where nothing was named or found, the mock is what is offered.
pub proof fn the_mock_stands_in(installed: Installed, mock: bool)
    requires
        !installed.claude_code,
        !installed.codex,
        !installed.cursor,
    ensures
        startup::offer_of(Seq::empty(), installed, mock) == seq![Harness::Mock],
{
    assert(startup::found(installed).len() == 0);
    let offer = seq![Harness::Mock];
    assert(offer[0] == Harness::Mock);
}

/// Google is asked for a code, for the email alone, and to let the user pick
/// the account.
pub proof fn google_is_asked_for_the_email(google: GoogleView, state: Seq<char>)
    ensures
        text::holds(
            auth::authorize_of(google, state),
            auth::param("response_type"@, "code"@),
        ),
        text::holds(
            auth::authorize_of(google, state),
            auth::param("scope"@, "openid email"@),
        ),
        text::holds(
            auth::authorize_of(google, state),
            auth::param("prompt"@, "select_account"@),
        ),
{
    lemma_seven(
        "https://accounts.google.com/o/oauth2/v2/auth?"@,
        auth::param("client_id"@, google.client_id),
        auth::param("redirect_uri"@, auth::redirect_of(google)),
        auth::param("response_type"@, "code"@),
        auth::param("scope"@, "openid email"@),
        auth::param("state"@, state),
        auth::param("prompt"@, "select_account"@),
        auth::param("access_type"@, "online"@),
        "&"@,
    );
}

proof fn lemma_seven(
    start: Seq<char>,
    a: Seq<char>,
    b: Seq<char>,
    c: Seq<char>,
    d: Seq<char>,
    e: Seq<char>,
    f: Seq<char>,
    g: Seq<char>,
    and: Seq<char>,
)
    ensures
        ({
            let all = start + a + and + b + and + c + and + d + and + e + and + f + and + g;
            text::holds(all, c) && text::holds(all, d) && text::holds(all, f)
        }),
{
    let to_c = start + a + and + b + and + c;
    lemma_last_held(start + a + and + b + and, c);
    lemma_still_held(to_c, and, c);
    let to_d = to_c + and + d;
    lemma_last_held(to_c + and, d);
    lemma_still_held(to_c + and, d, c);
    lemma_still_held(to_d, and, c);
    lemma_still_held(to_d, and, d);
    lemma_still_held(to_d + and, e, c);
    lemma_still_held(to_d + and, e, d);
    let to_e = to_d + and + e;
    lemma_still_held(to_e, and, c);
    lemma_still_held(to_e, and, d);
    let to_f = to_e + and + f;
    lemma_last_held(to_e + and, f);
    lemma_still_held(to_e + and, f, c);
    lemma_still_held(to_e + and, f, d);
    lemma_still_held(to_f, and, c);
    lemma_still_held(to_f, and, d);
    lemma_still_held(to_f, and, f);
    lemma_still_held(to_f + and, g, c);
    lemma_still_held(to_f + and, g, d);
    lemma_still_held(to_f + and, g, f);
}

proof fn lemma_last_held(front: Seq<char>, part: Seq<char>)
    ensures
        text::holds(front + part, part),
{
    text::parts_are_held(front, part, Seq::empty());
    assert(front + part + Seq::<char>::empty() =~= front + part);
}

proof fn lemma_still_held(s: Seq<char>, more: Seq<char>, part: Seq<char>)
    requires
        text::holds(s, part),
    ensures
        text::holds(s + more, part),
{
    text::parts_are_held(Seq::empty(), s, more);
    assert(Seq::<char>::empty() + s + more =~= s + more);
    text::parts_of_parts_are_held(s + more, s, part);
}

} // verus!
