use ceilidh::protocol::Harness;
use ceilidh::startup::{
    announce, guard_exposed_bind, hex_text, local_url, mint_token, no_harness_warning, offer,
    offer_line, saved_token, secret_contents, supplied_token, BindAddress, Installed,
    ResolvedToken, TokenSource,
};

fn bind(ip: &str, ipv6: bool, loopback: bool, unspecified: bool) -> BindAddress {
    BindAddress { ip: ip.to_string(), port: 8080, ipv6, loopback, unspecified }
}

#[test]
fn an_exposed_address_takes_a_token() {
    let local = bind("127.0.0.1", false, true, false);
    let open = bind("0.0.0.0", false, false, true);
    assert!(guard_exposed_bind(&local, &None).is_ok());
    assert!(guard_exposed_bind(&open, &Some("t".to_string())).is_ok());
    assert!(guard_exposed_bind(&open, &Some(" ".to_string())).is_err());
    assert_eq!(
        guard_exposed_bind(&bind("2001:db8::1", true, false, false), &None).unwrap_err(),
        "refusing to bind [2001:db8::1]:8080 without a token: a token ceilidh mints for itself guards a loopback bind, not a network one. Set CEILIDH_TOKEN (or --token) explicitly, or bind to 127.0.0.1"
    );
}

#[test]
fn browsers_reach_a_wildcard_on_loopback() {
    assert_eq!(local_url(&bind("0.0.0.0", false, false, true)), "http://127.0.0.1:8080");
    assert_eq!(local_url(&bind("::", true, false, true)), "http://127.0.0.1:8080");
    assert_eq!(local_url(&bind("::1", true, true, false)), "http://[::1]:8080");
    assert_eq!(local_url(&bind("10.0.0.1", false, false, false)), "http://10.0.0.1:8080");
}

#[test]
fn tokens_are_supplied_saved_or_minted() {
    let given = supplied_token(&Some(" t ".to_string())).unwrap();
    assert_eq!(given.value, " t ");
    assert!(matches!(given.source, TokenSource::Supplied));
    assert!(supplied_token(&Some("  ".to_string())).is_none());
    assert!(supplied_token(&None).is_none());

    let minted = mint_token();
    assert_eq!(minted.len(), 32);
    assert!(minted.chars().all(|c| c.is_ascii_hexdigit() && !c.is_ascii_uppercase()));
    assert_ne!(minted, mint_token());
    let again = saved_token(&secret_contents(&minted), "/h/token").unwrap();
    assert_eq!(again.value, minted);
    assert!(matches!(again.source, TokenSource::Saved(path) if path == "/h/token"));
    assert!(saved_token("\n", "/h/token").is_none());
    assert_eq!(hex_text(&vec![0, 10, 255]), "000aff");
}

#[test]
fn the_operator_is_told_where_to_go() {
    let local = bind("127.0.0.1", false, true, false);
    let token = ResolvedToken {
        value: "abc".to_string(),
        source: TokenSource::Minted("/h/token".to_string()),
    };
    let told = announce(&local, &token);
    assert_eq!(told.sign_in, "http://127.0.0.1:8080/?token=abc");
    assert_eq!(
        told.lines,
        vec![
            "ceilidh caller on http://127.0.0.1:8080",
            "token abc (new, saved in /h/token)",
            "open http://127.0.0.1:8080/?token=abc",
        ]
    );
    let token = ResolvedToken { value: "abc".to_string(), source: TokenSource::Supplied };
    assert_eq!(announce(&local, &token).lines[1], "token abc (from --token or CEILIDH_TOKEN)");
}

#[test]
fn what_is_installed_is_offered() {
    let none = Installed { claude_code: false, codex: false, cursor: false };
    let some = Installed { claude_code: true, codex: false, cursor: true };
    let found = offer(&vec![], some, false);
    assert_eq!(found.harnesses, vec![Harness::ClaudeCode, Harness::Cursor]);
    assert!(!found.warn);
    assert_eq!(
        offer(&vec![], some, true).harnesses,
        vec![Harness::ClaudeCode, Harness::Cursor, Harness::Mock]
    );
    assert_eq!(offer(&vec![Harness::Codex], none, false).harnesses, vec![Harness::Codex]);
    let bare = offer(&vec![], none, false);
    assert_eq!(bare.harnesses, vec![Harness::Mock]);
    assert!(bare.warn);
    let asked = offer(&vec![], none, true);
    assert_eq!(asked.harnesses, vec![Harness::Mock]);
    assert!(!asked.warn);
    assert_eq!(
        offer_line(&offer(&vec![Harness::Codex, Harness::Mock], none, false).harnesses),
        "harnesses offered: codex, mock"
    );
    assert_eq!(no_harness_warning().len(), 5);
}
