//! Helpers for tests that need a genuine login cookie.

use vstd::prelude::*;
use vstd::utf8::encode_utf8;

use crate::access;
use crate::auth;
use crate::auth::CookieSigner;

verus! {

/// A signer under this secret.
pub fn signer(secret: &str) -> (signer: CookieSigner)
    ensures
        signer@ == encode_utf8(secret@),
{
    CookieSigner::new(secret)
}

/// The bare cookie value (no attributes) that a signed-in browser would send:
/// for an email without a bar, whoever sends it alone is that email until it
/// expires.
pub fn session_cookie_value(signer: &CookieSigner, email: &str) -> (value: String)
    ensures
        exists|now: u64|
            value@ == auth::signed(
                signer@,
                "session"@,
                email@,
                #[trigger] auth::expiry_of(now, 3600),
            ) && (auth::no_bar(email@) ==> forall|later: u64|
                later <= auth::expiry_of(now, 3600) ==> #[trigger] access::signed_in(
                    signer@,
                    Some(auth::SESSION_COOKIE@ + "="@ + value@),
                    later,
                ) == Some(email@)),
{
    let value: String = signer.sign("session", email, 3600);
    proof {
        reveal_strlit("session");
        assert(auth::no_bar("session"@));
        access::lemma_login_cookie(signer@, email@, value@);
        let now = choose|now: u64|
            value@ == auth::signed(
                signer@,
                "session"@,
                email@,
                #[trigger] auth::expiry_of(now, 3600),
            ) && (auth::no_bar("session"@) && auth::no_bar(email@) ==> auth::reads_back(
                signer@,
                "session"@,
                email@,
                auth::expiry_of(now, 3600),
                value@,
            ));
        assert(auth::expiry_of(now, 3600) == auth::expiry_of(now, 3600));
    }
    value
}

} // verus!
