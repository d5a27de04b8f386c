use ceilidh::access::{
    finish_callback, html_escape, login_at, query_token_matches, request_has_token, require_auth,
    require_auth_at, signed_in_email, signed_in_email_at, start_callback, CallbackQuery,
    CallbackStep, SignIn,
};
use ceilidh::auth::{
    clear_cookie, constant_time_eq, cookie_value, random_token, session_cookie, session_cookie_at,
    state_cookie, state_cookie_at,
    urlencode, CookieSigner, GoogleAuth, UserInfo, SESSION_COOKIE, STATE_COOKIE,
};
use ceilidh::config::{model_menu, settings};
use ceilidh::names::{anthropic_cli_name, anthropic_model_name};
use ceilidh::protocol::Harness;
use ceilidh::test_support;

fn auth() -> GoogleAuth {
    GoogleAuth::from_env_values(
        Some("id".to_string()),
        Some("secret".to_string()),
        Some("https://caller.example/".to_string()),
        Some(" Someone@Example.com , other@example.com".to_string()),
    )
    .unwrap()
}

#[test]
fn config_needs_every_piece_and_normalizes_emails() {
    assert!(GoogleAuth::from_env_values(
        None,
        Some("s".to_string()),
        Some("u".to_string()),
        Some("a@b".to_string())
    )
    .is_none());
    assert!(GoogleAuth::from_env_values(
        Some("i".to_string()),
        Some("s".to_string()),
        Some("u".to_string()),
        Some(" ".to_string())
    )
    .is_none());
    let a = auth();
    assert_eq!(a.redirect_uri(), "https://caller.example/auth/callback");
    assert!(a.allows("SOMEONE@example.com"));
    assert!(!a.allows("stranger@example.com"));
}

#[test]
fn authorize_url_carries_state_and_redirect() {
    let url = auth().authorize_url("st ate");
    assert!(url.starts_with("https://accounts.google.com/o/oauth2/v2/auth?"));
    assert!(url.contains("state=st%20ate"));
    assert!(url.contains("redirect_uri=https%3A%2F%2Fcaller.example%2Fauth%2Fcallback"));
    assert!(url.contains("scope=openid%20email"));
}

#[test]
fn cookies_round_trip_and_reject_tampering() {
    let signer = CookieSigner::new("k");
    let value = signer.sign("session", "someone@example.com", 60);
    assert_eq!(signer.verify("session", &value).as_deref(), Some("someone@example.com"));
    assert!(signer.verify("state", &value).is_none(), "wrong kind");
    let mut forged = value.clone();
    forged.replace_range(0..1, if value.starts_with('A') { "B" } else { "A" });
    assert!(signer.verify("session", &forged).is_none());
    assert!(CookieSigner::new("other").verify("session", &value).is_none());
    let expired = signer.sign_at("session", "someone@example.com", 0, 1_000);
    assert!(signer.verify_at("session", &expired, 1_001).is_none());
}

#[test]
fn cookie_header_lookup() {
    let header = "a=1; ceilidh_session=abc.def; b=2";
    assert_eq!(cookie_value(header, SESSION_COOKIE), Some("abc.def"));
    assert_eq!(cookie_value(header, "missing"), None);
}

#[test]
fn cookies_expire() {
    let signer = CookieSigner::new("k");
    let value = signer.sign_at("session", "a@b", 60, 1_000);
    assert_eq!(signer.verify_at("session", &value, 1_060).as_deref(), Some("a@b"));
    assert!(signer.verify_at("session", &value, 1_061).is_none());
    assert!(signer.verify_at("session", "no-dot", 1_000).is_none());
    assert!(signer.verify_at("session", "a.b", 1_000).is_none());
    assert!(signer.verify_at("session", "", 1_000).is_none());
}

#[test]
fn signatures_are_what_hmac_and_base64_make_of_them() {
    // "session|a@b|1060" under the key "k".
    let signer = CookieSigner::new("k");
    let value = signer.sign_at("session", "a@b", 60, 1_000);
    let (payload, mac) = value.split_once('.').unwrap();
    assert_ne!(payload, "session|a@b|1060");
    assert_eq!(mac.len(), 43);
    assert_ne!(CookieSigner::new("l").sign_at("session", "a@b", 60, 1_000), value);
    assert_ne!(signer.sign_at("session", "a@c", 60, 1_000), value);
}

#[test]
fn only_equal_bytes_are_equal() {
    assert!(constant_time_eq(b"abc", b"abc"));
    assert!(!constant_time_eq(b"abc", b"abd"));
    assert!(!constant_time_eq(b"abc", b"ab"));
    assert!(constant_time_eq(b"", b""));
}

#[test]
fn urls_carry_no_reserved_characters() {
    assert_eq!(urlencode("a-Z_0.~"), "a-Z_0.~");
    assert_eq!(urlencode("a b/\u{e9}"), "a%20b%2F%C3%A9");
}

#[test]
fn random_tokens_are_fresh_and_url_safe() {
    let token = random_token();
    assert_eq!(token.len(), 32);
    assert!(token.chars().all(|c| c.is_ascii_alphanumeric() || c == '-' || c == '_'));
    assert_ne!(token, random_token());
}

#[test]
fn login_cookies_are_locked_down() {
    let signer = CookieSigner::new("k");
    let cookie = session_cookie_at(&signer, "a@b", 1_000);
    assert!(cookie.starts_with("ceilidh_session="));
    assert!(cookie.contains("HttpOnly"));
    assert!(cookie.contains("Secure"));
    assert!(cookie.contains("SameSite=Lax"));
    assert!(cookie.contains("Max-Age=2592000"));
    let state = state_cookie_at(&signer, "nonce", 1_000);
    assert!(state.starts_with("ceilidh_oauth_state="));
    assert!(state.contains("Max-Age=600"));
    assert!(clear_cookie("ceilidh_session", "/").contains("Max-Age=0"));
}

#[test]
fn a_login_cookie_is_as_good_as_the_token() {
    let set = settings(Some("machine".to_string()), None, Some("cookie-key".to_string()));
    let token = set.token.as_deref();

    // No Google configured: there is no sign-in to go to.
    let login = login_at(None, &set.signer, "nonce", 1_000);
    assert_eq!(login.unwrap_err().status, 404);

    // Anonymous: refused. Token: fine. Cookie under the right key: fine.
    let anonymous = require_auth(token, None, None, &set.signer, None).unwrap_err();
    assert_eq!(anonymous.status, 401);
    assert_eq!(anonymous.message, "unauthorized");
    assert!(require_auth(token, Some("Bearer machine"), None, &set.signer, None).is_ok());
    assert!(require_auth(token, None, Some("token=machine"), &set.signer, None).is_ok());
    assert_eq!(signed_in_email(&set.signer, None), None);

    let signer = test_support::signer("cookie-key");
    let cookie = test_support::session_cookie_value(&signer, "someone@example.com");
    let header = format!("ceilidh_session={cookie}");
    assert!(require_auth(token, None, None, &set.signer, Some(&header)).is_ok());
    assert_eq!(
        signed_in_email(&set.signer, Some(&header)).as_deref(),
        Some("someone@example.com")
    );

    let forged = test_support::session_cookie_value(
        &test_support::signer("wrong-key"),
        "someone@example.com",
    );
    let header = format!("ceilidh_session={forged}");
    assert_eq!(
        require_auth(token, None, None, &set.signer, Some(&header)).unwrap_err().status,
        401
    );
}

#[test]
fn tokens_are_read_from_header_and_query() {
    assert!(request_has_token(Some("Bearer t"), None, "t"));
    assert!(!request_has_token(Some("bearer t"), None, "t"));
    assert!(!request_has_token(Some("Bearer tt"), None, "t"));
    assert!(query_token_matches("a=1&token=t", "t"));
    assert!(!query_token_matches("a=1&tokens=t", "t"));
    assert!(!query_token_matches("token", "t"));
    let signer = CookieSigner::new("k");
    assert!(require_auth_at(None, None, None, &signer, None, 0).is_ok());
    assert_eq!(signed_in_email_at(&signer, Some("x=1"), 0), None);
}

#[test]
fn pages_escape_what_they_quote() {
    assert_eq!(html_escape("<a href=\"x\">&"), "&lt;a href=&quot;x&quot;&gt;&amp;");
}

fn back(code: Option<&str>, state: Option<&str>, error: Option<&str>) -> CallbackQuery {
    CallbackQuery {
        code: code.map(|s| s.to_string()),
        state: state.map(|s| s.to_string()),
        error: error.map(|s| s.to_string()),
    }
}

fn page(step: CallbackStep) -> String {
    match step {
        CallbackStep::Refuse { page } => page,
        _ => panic!("expected a refusal"),
    }
}

#[test]
fn sign_ins_start_and_end_in_the_same_browser() {
    let signer = CookieSigner::new("k");
    let login = login_at(Some(&auth()), &signer, "nonce", 1_000).unwrap();
    assert!(login.location.contains("state=nonce"));
    let cookies = login.cookie.split(';').next().unwrap().to_string();
    assert!(cookies.starts_with(STATE_COOKIE));

    match start_callback(true, back(Some("c"), Some("nonce"), None), &signer, Some(&cookies), 1_001) {
        CallbackStep::Exchange { code } => assert_eq!(code, "c"),
        _ => panic!("expected an exchange"),
    }
    assert!(page(start_callback(true, back(Some("c"), Some("other"), None), &signer, Some(&cookies), 1_001))
        .contains("did not start from this browser"));
    assert!(page(start_callback(true, back(Some("c"), Some("nonce"), None), &signer, None, 1_001))
        .contains("did not start from this browser"));
    assert!(page(start_callback(true, back(None, Some("nonce"), None), &signer, Some(&cookies), 1_001))
        .contains("incomplete"));
    assert!(page(start_callback(true, back(None, None, Some("<x>")), &signer, None, 1_001))
        .contains("Google said: &lt;x&gt;"));
    match start_callback(false, back(None, None, None), &signer, None, 1_001) {
        CallbackStep::Missing { error } => assert_eq!(error.message, "google sign-in not found"),
        _ => panic!("expected a 404"),
    }
}

fn info(email: Option<&str>, verified: bool) -> Option<UserInfo> {
    Some(UserInfo { email: email.map(|s| s.to_string()), email_verified: verified })
}

fn why(end: SignIn) -> String {
    match end {
        SignIn::Refuse { page } => page,
        SignIn::Done { .. } => panic!("expected a refusal"),
    }
}

#[test]
fn only_verified_emails_on_the_list_get_in() {
    let signer = CookieSigner::new("k");
    let google = auth();
    match finish_callback(&google, info(Some("Someone@example.com"), true), &signer, 1_000) {
        SignIn::Done { session, cleared_state } => {
            let header = session.split(';').next().unwrap();
            assert_eq!(
                signed_in_email_at(&signer, Some(header), 1_001).as_deref(),
                Some("Someone@example.com")
            );
            assert!(cleared_state.starts_with("ceilidh_oauth_state=;"));
        },
        SignIn::Refuse { .. } => panic!("expected a login"),
    }
    assert!(why(finish_callback(&google, None, &signer, 0)).contains("did not confirm"));
    assert!(why(finish_callback(&google, info(None, true), &signer, 0)).contains("verified email"));
    assert!(why(finish_callback(&google, info(Some("other@example.com"), false), &signer, 0))
        .contains("verified email"));
    assert!(why(finish_callback(&google, info(Some("<x>@y"), true), &signer, 0))
        .contains("&lt;x&gt;@y is not allowed in here."));
}

#[test]
fn settings_drop_blanks_and_choose_a_cookie_key() {
    let set = settings(Some("".to_string()), Some(" ".to_string()), None);
    assert_eq!(set.token, None);
    assert_eq!(set.config.default_repo_url, None);
    assert_eq!(set.config.models.len(), 18);
    let value = set.signer.sign_at("session", "a", 10, 0);
    assert!(CookieSigner::new("ceilidh-loopback").verify_at("session", &value, 0).is_some());

    let set = settings(Some("t".to_string()), Some("https://r".to_string()), Some(" ".to_string()));
    assert_eq!(set.config.default_repo_url.as_deref(), Some("https://r"));
    let value = set.signer.sign_at("session", "a", 10, 0);
    assert!(CookieSigner::new("t").verify_at("session", &value, 0).is_some());
}

#[test]
fn the_menu_offers_each_vendor() {
    let menu = model_menu();
    assert_eq!(menu[0].model, format!("{}-fable-5-1", anthropic_cli_name()));
    assert_eq!(menu[1].label, format!("{} Opus 5", anthropic_model_name()));
    assert_eq!(menu.iter().filter(|m| m.harness == Harness::ClaudeCode).count(), 6);
    assert_eq!(menu.iter().filter(|m| m.harness == Harness::Codex).count(), 4);
    assert_eq!(menu.iter().filter(|m| m.harness == Harness::Cursor).count(), 8);
    assert_eq!(menu.iter().filter(|m| m.harness == Harness::Mock).count(), 0);
}

#[test]
fn cookies_set_now_are_good_now() {
    let signer = CookieSigner::new("k");
    let session = session_cookie(&signer, "someone@example.com");
    let header = session.split(';').next().unwrap();
    let value = cookie_value(header, SESSION_COOKIE).unwrap();
    assert_eq!(signer.verify("session", value), Some("someone@example.com".to_string()));
    assert_eq!(signer.verify("state", value), None);

    let state = state_cookie(&signer, "abc");
    let header = state.split(';').next().unwrap();
    let value = cookie_value(header, STATE_COOKIE).unwrap();
    assert_eq!(signer.verify("state", value), Some("abc".to_string()));
}
