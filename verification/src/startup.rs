//! What is decided when the program starts: whether an address may be bound,
//! which token guards the caller, what the operator is told, and which
//! harnesses the local runner offers.

use vstd::prelude::*;

use crate::names;
use crate::outside;
use crate::protocol::Harness;
use crate::text;

verus! {

/// The random bytes in a minted token.
pub const TOKEN_BYTES: usize = 16;

// ---------------------------------------------------------------------------
// The address
// ---------------------------------------------------------------------------

/// An address to bind.
#[derive(Debug)]
pub struct BindAddress {
    /// The IP address as it is written.
    pub ip: String,
    pub port: u16,
    pub ipv6: bool,
    /// Reachable from this machine alone.
    pub loopback: bool,
    /// The wildcard address.
    pub unspecified: bool,
}

/// The view of an address.
pub struct BindView {
    pub ip: Seq<char>,
    pub port: u16,
    pub ipv6: bool,
    pub loopback: bool,
    pub unspecified: bool,
}

impl View for BindAddress {
    type V = BindView;

    open spec fn view(&self) -> BindView {
        BindView {
            ip: self.ip@,
            port: self.port,
            ipv6: self.ipv6,
            loopback: self.loopback,
            unspecified: self.unspecified,
        }
    }
}

/// A host as it stands in an address: an IPv6 address in brackets.
pub open spec fn host_of(bind: BindView) -> Seq<char> {
    if bind.ipv6 {
        "["@ + bind.ip + "]"@
    } else {
        bind.ip
    }
}

/// An address as it is written.
pub open spec fn address_of(bind: BindView) -> Seq<char> {
    host_of(bind) + ":"@ + text::decimal(bind.port as nat)
}

/// The URL that a browser on this machine uses. A wildcard address is
/// reachable on loopback too.
pub open spec fn url_of(bind: BindView) -> Seq<char> {
    "http://"@ + (if bind.unspecified {
        "127.0.0.1"@
    } else {
        host_of(bind)
    }) + ":"@ + text::decimal(bind.port as nat)
}

/// A host as it stands in an address.
fn host(bind: &BindAddress) -> (host: String)
    ensures
        host@ == host_of(bind@),
{
    if !bind.ipv6 {
        return bind.ip.clone();
    }
    let mut host: String = "[".to_string();
    host.append(&bind.ip);
    host.append("]");
    host
}

/// The URL that a browser on this machine uses.
pub fn local_url(bind: &BindAddress) -> (url: String)
    ensures
        url@ == url_of(bind@),
{
    let mut url: String = "http://".to_string();
    if bind.unspecified {
        url.append("127.0.0.1");
    } else {
        url.append(&host(bind));
    }
    url.append(":");
    url.append(&text::decimal_text(bind.port as u64));
    url
}

/// A token that the operator supplied: more than blanks.
pub open spec fn is_supplied(token: Option<Seq<char>>) -> bool {
    token matches Some(token) && !text::is_blank(token)
}

/// An address is bound where only this machine reaches it, or behind a token
/// that the operator supplied.
pub open spec fn may_bind(loopback: bool, token: Option<Seq<char>>) -> bool {
    loopback || is_supplied(token)
}

/// What is said of an address that is not bound.
pub open spec fn exposed(bind: BindView) -> Seq<char> {
    "refusing to bind "@ + address_of(bind)
        + " without a token: a token ceilidh mints for itself guards a loopback bind, not a network one. Set CEILIDH_TOKEN (or --token) explicitly, or bind to 127.0.0.1"@
}

/// Binding beyond loopback takes a token that the operator chose to hand over:
/// a minted one does not count.
pub fn guard_exposed_bind(bind: &BindAddress, token: &Option<String>) -> (allowed: Result<
    (),
    String,
>)
    ensures
        allowed is Ok <==> may_bind(bind.loopback, text::opt_text(*token)),
        allowed matches Err(message) ==> message@ == exposed(bind@),
{
    if bind.loopback {
        return Ok(());
    }
    match token {
        Some(token) => {
            if !text::blank(token) {
                return Ok(());
            }
        },
        None => {},
    }
    let mut message: String = "refusing to bind ".to_string();
    let mut address: String = host(bind);
    address.append(":");
    address.append(&text::decimal_text(bind.port as u64));
    message.append(&address);
    message.append(
        " without a token: a token ceilidh mints for itself guards a loopback bind, not a network one. Set CEILIDH_TOKEN (or --token) explicitly, or bind to 127.0.0.1",
    );
    Err(message)
}

// ---------------------------------------------------------------------------
// The token
// ---------------------------------------------------------------------------

/// Where the caller's token came from.
#[derive(Debug)]
pub enum TokenSource {
    Supplied,
    /// The path of the file that holds it.
    Saved(String),
    /// The path of the file that it was written to.
    Minted(String),
}

/// The view of a token's source.
pub enum SourceView {
    Supplied,
    Saved(Seq<char>),
    Minted(Seq<char>),
}

impl View for TokenSource {
    type V = SourceView;

    open spec fn view(&self) -> SourceView {
        match self {
            TokenSource::Supplied => SourceView::Supplied,
            TokenSource::Saved(path) => SourceView::Saved(path@),
            TokenSource::Minted(path) => SourceView::Minted(path@),
        }
    }
}

/// A token and its source.
#[derive(Debug)]
pub struct ResolvedToken {
    pub value: String,
    pub source: TokenSource,
}

/// The view of a token and its source.
pub struct TokenView {
    pub value: Seq<char>,
    pub source: SourceView,
}

impl View for ResolvedToken {
    type V = TokenView;

    open spec fn view(&self) -> TokenView {
        TokenView { value: self.value@, source: self.source@ }
    }
}

/// The flag or the environment wins, where it is more than blanks.
pub fn supplied_token(supplied: &Option<String>) -> (token: Option<ResolvedToken>)
    ensures
        match token {
            Some(token) => is_supplied(text::opt_text(*supplied)) && token@ == (TokenView {
                value: text::opt_text(*supplied)->0,
                source: SourceView::Supplied,
            }),
            None => !is_supplied(text::opt_text(*supplied)),
        },
{
    match supplied {
        Some(value) => if text::blank(value) {
            None
        } else {
            Some(ResolvedToken { value: value.clone(), source: TokenSource::Supplied })
        },
        None => None,
    }
}

/// Otherwise the saved one is reused, where the file holds more than blanks.
pub fn saved_token(contents: &str, path: &str) -> (token: Option<ResolvedToken>)
    ensures
        match token {
            Some(token) => !text::is_blank(contents@) && token@ == (TokenView {
                value: text::trimmed(contents@),
                source: SourceView::Saved(path@),
            }),
            None => text::is_blank(contents@),
        },
{
    let saved: String = text::trim(contents);
    proof {
        text::blank_text_trims_to_nothing(contents@);
    }
    if saved.as_str().is_empty() {
        return None;
    }
    Some(ResolvedToken { value: saved, source: TokenSource::Saved(path.to_string()) })
}

/// Two hexadecimal digits for each byte.
pub open spec fn hex_of(bytes: Seq<u8>) -> Seq<char>
    decreases bytes.len(),
{
    if bytes.len() == 0 {
        Seq::empty()
    } else {
        hex_of(bytes.drop_last()).push(outside::hex_lower(bytes.last() as nat / 16)).push(
            outside::hex_lower(bytes.last() as nat % 16),
        )
    }
}

/// A lower-case hexadecimal digit.
pub open spec fn is_hex(c: char) -> bool {
    '0' <= c <= '9' || 'a' <= c <= 'f'
}

/// The hexadecimal digit of a number below sixteen.
fn hex_char(n: u8) -> (c: char)
    requires
        n < 16,
    ensures
        c == outside::hex_lower(n as nat),
{
    let c: char = if n < 10 {
        (48u8 + n) as char
    } else {
        (87u8 + n) as char
    };
    c
}

/// The bytes as hexadecimal digits.
pub fn hex_text(bytes: &Vec<u8>) -> (out: String)
    ensures
        out@ == hex_of(bytes@),
{
    let mut out: String = String::new();
    let mut i: usize = 0;
    assert(bytes@.take(0) =~= Seq::empty());
    assert(out@ =~= Seq::empty());
    while i < bytes.len()
        invariant
            i <= bytes@.len(),
            out@ == hex_of(bytes@.take(i as int)),
        decreases bytes@.len() - i,
    {
        proof {
            assert(bytes@.take(i + 1).drop_last() =~= bytes@.take(i as int));
            assert(bytes@.take(i + 1).last() == bytes@[i as int]);
        }
        out.push(hex_char(bytes[i] / 16));
        out.push(hex_char(bytes[i] % 16));
        i += 1;
    }
    assert(bytes@.take(i as int) =~= bytes@);
    out
}

/// A hexadecimal text needs no escaping in a URL: it is digits alone, two for
/// each byte.
pub proof fn hex_is_plain(bytes: Seq<u8>)
    ensures
        hex_of(bytes).len() == 2 * bytes.len(),
        forall|i: int| 0 <= i < hex_of(bytes).len() ==> is_hex(#[trigger] hex_of(bytes)[i]),
    decreases bytes.len(),
{
    if bytes.len() > 0 {
        hex_is_plain(bytes.drop_last());
    }
}

/// What is written to the token's file.
pub open spec fn contents_of(token: Seq<char>) -> Seq<char> {
    token + "\n"@
}

/// What is written to the token's file.
pub fn secret_contents(token: &str) -> (contents: String)
    ensures
        contents@ == contents_of(token@),
{
    let mut contents: String = token.to_string();
    contents.append("\n");
    contents
}

/// A token that was minted and saved is the one that the next start reuses.
pub proof fn minted_tokens_are_reused(bytes: Seq<u8>)
    requires
        bytes.len() > 0,
    ensures
        !text::is_blank(contents_of(hex_of(bytes))),
        text::trimmed(contents_of(hex_of(bytes))) == hex_of(bytes),
{
    let token = hex_of(bytes);
    let contents = contents_of(token);
    reveal_strlit("\n");
    hex_is_plain(bytes);
    assert(is_hex(token[0]) && is_hex(token.last()));
    assert(contents[0] == token[0]);
    assert(text::trim_start(contents) == contents);
    assert(contents.drop_last() =~= token);
    assert(text::is_space(contents.last()));
    assert(text::trim_end(contents) == text::trim_end(token));
    text::blank_text_trims_to_nothing(contents);
}

/// Otherwise a fresh one is minted: thirty-two hexadecimal digits, and nothing
/// in it needs escaping in the URL that carries it to the browser.
pub fn mint_token() -> (token: String)
    ensures
        exists|bytes: Seq<u8>| bytes.len() == TOKEN_BYTES && token@ == #[trigger] hex_of(bytes),
        token@.len() == 2 * TOKEN_BYTES,
        forall|i: int| 0 <= i < token@.len() ==> is_hex(#[trigger] token@[i]),
{
    let bytes: Vec<u8> = outside::random_bytes(TOKEN_BYTES);
    proof {
        hex_is_plain(bytes@);
    }
    hex_text(&bytes)
}

// ---------------------------------------------------------------------------
// What the operator is told
// ---------------------------------------------------------------------------

/// Where the operator is told that a token came from.
pub open spec fn source_words(source: SourceView) -> Seq<char> {
    match source {
        SourceView::Supplied => " (from --token or CEILIDH_TOKEN)"@,
        SourceView::Saved(path) => " (saved in "@ + path + ")"@,
        SourceView::Minted(path) => " (new, saved in "@ + path + ")"@,
    }
}

/// The URL that signs a browser in.
pub open spec fn sign_in_of(bind: BindView, token: Seq<char>) -> Seq<char> {
    url_of(bind) + "/?token="@ + token
}

/// What the operator is told: three lines, and the URL that signs in.
#[derive(Debug)]
pub struct Announcement {
    pub lines: Vec<String>,
    pub sign_in: String,
}

/// Where the caller is, what the token is, and where it lives.
pub fn announce(bind: &BindAddress, token: &ResolvedToken) -> (told: Announcement)
    ensures
        told.sign_in@ == sign_in_of(bind@, token@.value),
        text::texts(told.lines@) == seq![
            "ceilidh caller on "@ + url_of(bind@),
            "token "@ + token@.value + source_words(token@.source),
            "open "@ + sign_in_of(bind@, token@.value),
        ],
{
    let url: String = local_url(bind);
    let mut sign_in: String = url.clone();
    sign_in.append("/?token=");
    sign_in.append(&token.value);

    let mut caller: String = "ceilidh caller on ".to_string();
    caller.append(&url);
    let mut held: String = "token ".to_string();
    held.append(&token.value);
    let mut source: String = String::new();
    match &token.source {
        TokenSource::Supplied => {
            source = " (from --token or CEILIDH_TOKEN)".to_string();
        },
        TokenSource::Saved(path) => {
            source = " (saved in ".to_string();
            source.append(path);
            source.append(")");
        },
        TokenSource::Minted(path) => {
            source = " (new, saved in ".to_string();
            source.append(path);
            source.append(")");
        },
    }
    held.append(&source);
    let mut open: String = "open ".to_string();
    open.append(&sign_in);

    let mut lines: Vec<String> = Vec::new();
    lines.push(caller);
    lines.push(held);
    lines.push(open);
    let told = Announcement { lines, sign_in };
    assert(text::texts(told.lines@) =~= seq![
        "ceilidh caller on "@ + url_of(bind@),
        "token "@ + token@.value + source_words(token@.source),
        "open "@ + sign_in_of(bind@, token@.value),
    ]);
    told
}

// ---------------------------------------------------------------------------
// The harnesses on offer
// ---------------------------------------------------------------------------

/// Which of the configured harness binaries this machine has.
#[derive(Debug, Clone, Copy)]
pub struct Installed {
    pub claude_code: bool,
    pub codex: bool,
    pub cursor: bool,
}

/// The harness alone, where it is installed.
pub open spec fn where_installed(yes: bool, harness: Harness) -> Seq<Harness> {
    if yes {
        seq![harness]
    } else {
        Seq::empty()
    }
}

/// The harnesses that this machine has.
pub open spec fn found(installed: Installed) -> Seq<Harness> {
    where_installed(installed.claude_code, Harness::ClaudeCode) + where_installed(
        installed.codex,
        Harness::Codex,
    ) + where_installed(installed.cursor, Harness::Cursor)
}

/// The harnesses on offer: those named, else those installed, else the mock;
/// and the mock too where it is asked for.
pub open spec fn offer_of(named: Seq<Harness>, installed: Installed, mock: bool) -> Seq<Harness> {
    let chosen = if named.len() > 0 {
        named
    } else if found(installed).len() > 0 {
        found(installed)
    } else {
        seq![Harness::Mock]
    };
    if mock && !chosen.contains(Harness::Mock) {
        chosen.push(Harness::Mock)
    } else {
        chosen
    }
}

/// The operator is warned where nothing but the mock is left and it was not
/// asked for.
pub open spec fn warns(named: Seq<Harness>, installed: Installed, mock: bool) -> bool {
    named.len() == 0 && found(installed).len() == 0 && !mock
}

/// The harnesses that the local runner offers, and whether to warn.
#[derive(Debug)]
pub struct Offer {
    pub harnesses: Vec<Harness>,
    pub warn: bool,
}

/// The harnesses that this machine has.
pub fn installed_harnesses(installed: Installed) -> (harnesses: Vec<Harness>)
    ensures
        harnesses@ == found(installed),
{
    let mut harnesses: Vec<Harness> = Vec::new();
    if installed.claude_code {
        harnesses.push(Harness::ClaudeCode);
    }
    if installed.codex {
        harnesses.push(Harness::Codex);
    }
    if installed.cursor {
        harnesses.push(Harness::Cursor);
    }
    assert(harnesses@ =~= found(installed));
    harnesses
}

/// Whether a harness is in a list.
fn is_offered(harnesses: &Vec<Harness>, harness: Harness) -> (yes: bool)
    ensures
        yes == harnesses@.contains(harness),
{
    let mut i: usize = 0;
    while i < harnesses.len()
        invariant
            i <= harnesses@.len(),
            forall|k: int| 0 <= k < i ==> harnesses@[k] != harness,
        decreases harnesses@.len() - i,
    {
        if harnesses[i] == harness {
            return true;
        }
        i += 1;
    }
    false
}

/// The harnesses that the local runner offers, and whether to warn.
pub fn offer(named: &Vec<Harness>, installed: Installed, mock: bool) -> (offer: Offer)
    ensures
        offer.harnesses@ == offer_of(named@, installed, mock),
        offer.warn == warns(named@, installed, mock),
{
    let mut warn: bool = false;
    let mut harnesses: Vec<Harness> = Vec::new();
    if named.len() > 0 {
        let mut i: usize = 0;
        while i < named.len()
            invariant
                i <= named@.len(),
                harnesses@ == named@.take(i as int),
            decreases named@.len() - i,
        {
            harnesses.push(named[i]);
            assert(named@.take(i + 1) =~= named@.take(i as int).push(named@[i as int]));
            i += 1;
        }
        assert(harnesses@ =~= named@);
    } else {
        harnesses = installed_harnesses(installed);
        if harnesses.len() == 0 {
            warn = !mock;
            harnesses.push(Harness::Mock);
            assert(harnesses@ =~= seq![Harness::Mock]);
        }
    }
    if mock && !is_offered(&harnesses, Harness::Mock) {
        harnesses.push(Harness::Mock);
    }
    Offer { harnesses, warn }
}

/// A local runner always offers something.
pub proof fn something_is_offered(named: Seq<Harness>, installed: Installed, mock: bool)
    ensures
        offer_of(named, installed, mock).len() > 0,
{
}

/// The mock is never a default beside a harness that does work: it is on offer
/// only where it is named, asked for, or all there is.
pub proof fn the_mock_is_no_default(named: Seq<Harness>, installed: Installed, mock: bool)
    requires
        offer_of(named, installed, mock).contains(Harness::Mock),
    ensures
        named.contains(Harness::Mock) || mock || (named.len() == 0 && found(installed).len() == 0),
{
}

/// The names of the harnesses on offer.
pub open spec fn names_of(harnesses: Seq<Harness>) -> Seq<Seq<char>> {
    harnesses.map_values(|harness: Harness| names::name_of(harness))
}

/// What the log says of the harnesses on offer.
pub fn offer_line(harnesses: &Vec<Harness>) -> (line: String)
    ensures
        line@ == "harnesses offered: "@ + text::joined(names_of(harnesses@), ", "@),
{
    let mut names: Vec<String> = Vec::new();
    let mut i: usize = 0;
    let ghost all = names_of(harnesses@);
    assert(text::texts(names@) =~= all.take(0));
    while i < harnesses.len()
        invariant
            i <= harnesses@.len(),
            all == names_of(harnesses@),
            text::texts(names@) == all.take(i as int),
        decreases harnesses@.len() - i,
    {
        let ghost before = names@;
        let name: String = names::harness_name(harnesses[i]);
        let ghost view = name@;
        names.push(name);
        proof {
            assert(text::texts(names@) =~= text::texts(before).push(view));
            assert(all.take(i + 1) =~= all.take(i as int).push(all[i as int]));
        }
        i += 1;
    }
    assert(all.take(i as int) =~= all);
    let mut line: String = "harnesses offered: ".to_string();
    line.append(&text::join(&names, ", "));
    line
}

/// What the operator is told where no harness is installed: the mock echoes,
/// it is no coding agent.
pub open spec fn warning_lines() -> Seq<Seq<char>> {
    let harness = names::name_of(Harness::ClaudeCode);
    let cli = names::anthropic_cli();
    seq![
        "warning: no harness CLI found on PATH, so only the mock harness is offered. The mock echoes your message back and writes no code."@,
        "  "@ + harness + "  npm i -g @anthropic-ai/"@ + harness + ", then run: "@ + cli,
        "  codex        npm i -g @openai/codex, then run: codex"@,
        "  cursor       curl https://cursor.com/install -fsS | bash, then: cursor-agent login"@,
        "Each one signs in on its own; ceilidh runs them as you. Point ceilidh at a binary elsewhere with --"@
            + cli + "-bin, --codex-bin or --cursor-bin."@,
    ]
}

/// What the operator is told where no harness is installed.
pub fn no_harness_warning() -> (lines: Vec<String>)
    ensures
        text::texts(lines@) == warning_lines(),
{
    let harness: String = names::harness_name(Harness::ClaudeCode);
    let cli: String = names::anthropic_cli_name();
    let mut install: String = "  ".to_string();
    install.append(&harness);
    install.append("  npm i -g @anthropic-ai/");
    install.append(&harness);
    install.append(", then run: ");
    install.append(&cli);
    let mut elsewhere: String =
        "Each one signs in on its own; ceilidh runs them as you. Point ceilidh at a binary elsewhere with --".to_string();
    elsewhere.append(&cli);
    elsewhere.append("-bin, --codex-bin or --cursor-bin.");
    let mut lines: Vec<String> = Vec::new();
    lines.push(
        "warning: no harness CLI found on PATH, so only the mock harness is offered. The mock echoes your message back and writes no code.".to_string(),
    );
    lines.push(install);
    lines.push("  codex        npm i -g @openai/codex, then run: codex".to_string());
    lines.push(
        "  cursor       curl https://cursor.com/install -fsS | bash, then: cursor-agent login".to_string(),
    );
    lines.push(elsewhere);
    assert(text::texts(lines@) =~= warning_lines());
    lines
}

} // verus!
