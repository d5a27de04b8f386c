//! What the caller offers its clients, and what it makes of its options.

use vstd::prelude::*;
use vstd::utf8::encode_utf8;

use crate::auth;
use crate::auth::CookieSigner;
use crate::mcp;
use crate::names;
use crate::protocol;
use crate::protocol::{CallerConfig, Harness, Lane, ModelChoice};
use crate::protocol::{LaneView, ModelView};
use crate::store;
use crate::store::ApiError;
use crate::store::ErrorView;
use crate::text;

verus! {

/// A row of the model menu.
pub open spec fn menu_row(
    vendor: Seq<char>,
    harness: Harness,
    model: Seq<char>,
    label: Seq<char>,
) -> ModelView {
    ModelView { vendor, harness, model, label }
}

/// The full name of a model that Anthropic makes.
pub open spec fn claude_model(model: Seq<char>) -> Seq<char> {
    names::anthropic_cli() + "-"@ + model
}

/// The full label of a model that Anthropic makes.
pub open spec fn claude_label(label: Seq<char>) -> Seq<char> {
    names::anthropic_model_word() + " "@ + label
}

/// A model of Anthropic's own harness.
pub open spec fn anthropic(model: Seq<char>, label: Seq<char>) -> ModelView {
    menu_row("Anthropic"@, Harness::ClaudeCode, claude_model(model), claude_label(label))
}

/// A model of Codex.
pub open spec fn openai(model: Seq<char>, label: Seq<char>) -> ModelView {
    menu_row("OpenAI"@, Harness::Codex, model, label)
}

/// A model of Anthropic's that Cursor offers.
pub open spec fn claude_by_cursor(model: Seq<char>, label: Seq<char>) -> ModelView {
    cursor(claude_model(model), claude_label(label))
}

/// A model of Cursor.
pub open spec fn cursor(model: Seq<char>, label: Seq<char>) -> ModelView {
    menu_row("Cursor"@, Harness::Cursor, model, label)
}

/// The model menu that the client offers, grouped by vendor. Every row is a
/// string that the harness takes verbatim.
pub open spec fn menu() -> Seq<ModelView> {
    seq![
        anthropic("fable-5-1"@, "Fable 5.1"@),
        anthropic("opus-5"@, "Opus 5"@),
        anthropic("opus-4-8"@, "Opus 4.8"@),
        anthropic("sonnet-5"@, "Sonnet 5"@),
        anthropic("sonnet-4-6"@, "Sonnet 4.6"@),
        anthropic("haiku-4-5"@, "Haiku 4.5"@),
        openai("gpt-5.6-sol"@, "GPT-5.6 Sol"@),
        openai("gpt-5.6-terra"@, "GPT-5.6 Terra"@),
        openai("gpt-5.6-luna"@, "GPT-5.6 Luna"@),
        openai("gpt-5.5"@, "GPT-5.5"@),
        cursor("cursor-grok-4.6-high"@, "Grok 4.6"@),
        cursor("cursor-grok-4.6-xhigh"@, "Grok 4.6 Extra High"@),
        cursor("gemini-3.7-flash-high"@, "Gemini 3.7 Flash"@),
        cursor("gpt-5.6-sol-high"@, "GPT-5.6 Sol High (Cursor)"@),
        cursor("gpt-5.6-luna-high"@, "GPT-5.6 Luna High (Cursor)"@),
        cursor("composer-2.5"@, "Composer 2.5"@),
        claude_by_cursor("opus-5-thinking-high"@, "Opus 5 Thinking (Cursor)"@),
        claude_by_cursor("sonnet-5-thinking-high"@, "Sonnet 5 Thinking (Cursor)"@),
    ]
}

/// Adds a row to the menu.
fn add_row(rows: &mut Vec<ModelChoice>, vendor: &str, harness: Harness, model: &str, label: &str)
    ensures
        protocol::menu_view(final(rows)@) == protocol::menu_view(old(rows)@).push(
            menu_row(vendor@, harness, model@, label@),
        ),
{
    let ghost before = rows@;
    rows.push(
        ModelChoice {
            vendor: vendor.to_string(),
            harness,
            model: model.to_string(),
            label: label.to_string(),
        },
    );
    assert(protocol::menu_view(rows@) =~= protocol::menu_view(before).push(
        menu_row(vendor@, harness, model@, label@),
    ));
}

/// Adds a row for a model that Anthropic makes.
fn add_claude(rows: &mut Vec<ModelChoice>, vendor: &str, harness: Harness, model: &str, label: &str)
    ensures
        protocol::menu_view(final(rows)@) == protocol::menu_view(old(rows)@).push(
            menu_row(vendor@, harness, claude_model(model@), claude_label(label@)),
        ),
{
    let mut full_model: String = names::anthropic_cli_name();
    full_model.append("-");
    full_model.append(model);
    let mut full_label: String = names::anthropic_model_name();
    full_label.append(" ");
    full_label.append(label);
    add_row(rows, vendor, harness, &full_model, &full_label);
}

/// The model menu that the client offers.
pub fn model_menu() -> (rows: Vec<ModelChoice>)
    ensures
        protocol::menu_view(rows@) == menu(),
{
    let mut rows: Vec<ModelChoice> = Vec::new();
    assert(protocol::menu_view(rows@) =~= Seq::empty());
    let a: Harness = Harness::ClaudeCode;
    let o: Harness = Harness::Codex;
    let c: Harness = Harness::Cursor;
    add_claude(&mut rows, "Anthropic", a, "fable-5-1", "Fable 5.1");
    add_claude(&mut rows, "Anthropic", a, "opus-5", "Opus 5");
    add_claude(&mut rows, "Anthropic", a, "opus-4-8", "Opus 4.8");
    add_claude(&mut rows, "Anthropic", a, "sonnet-5", "Sonnet 5");
    add_claude(&mut rows, "Anthropic", a, "sonnet-4-6", "Sonnet 4.6");
    add_claude(&mut rows, "Anthropic", a, "haiku-4-5", "Haiku 4.5");
    add_row(&mut rows, "OpenAI", o, "gpt-5.6-sol", "GPT-5.6 Sol");
    add_row(&mut rows, "OpenAI", o, "gpt-5.6-terra", "GPT-5.6 Terra");
    add_row(&mut rows, "OpenAI", o, "gpt-5.6-luna", "GPT-5.6 Luna");
    add_row(&mut rows, "OpenAI", o, "gpt-5.5", "GPT-5.5");
    add_row(&mut rows, "Cursor", c, "cursor-grok-4.6-high", "Grok 4.6");
    add_row(&mut rows, "Cursor", c, "cursor-grok-4.6-xhigh", "Grok 4.6 Extra High");
    add_row(&mut rows, "Cursor", c, "gemini-3.7-flash-high", "Gemini 3.7 Flash");
    add_row(&mut rows, "Cursor", c, "gpt-5.6-sol-high", "GPT-5.6 Sol High (Cursor)");
    add_row(&mut rows, "Cursor", c, "gpt-5.6-luna-high", "GPT-5.6 Luna High (Cursor)");
    add_row(&mut rows, "Cursor", c, "composer-2.5", "Composer 2.5");
    add_claude(&mut rows, "Cursor", c, "opus-5-thinking-high", "Opus 5 Thinking (Cursor)");
    add_claude(&mut rows, "Cursor", c, "sonnet-5-thinking-high", "Sonnet 5 Thinking (Cursor)");
    assert(protocol::menu_view(rows@) =~= menu());
    rows
}

// ---------------------------------------------------------------------------
// What is offered
// ---------------------------------------------------------------------------

/// A row of the menu stands for the lane, whatever its effort.
pub open spec fn stands_for(row: ModelView, lane: LaneView) -> bool {
    row.harness == lane.harness && row.model == lane.model
}

/// A lane that this installation offers: one of the menu, the default, or any
/// on the mock harness, which plays no model at all.
pub open spec fn offered(lane: LaneView) -> bool {
    ||| lane.harness == Harness::Mock
    ||| lane.harness == protocol::default_lane().harness && lane.model
        == protocol::default_lane().model
    ||| exists|i: int| 0 <= i < menu().len() && stands_for(#[trigger] menu()[i], lane)
}

/// What is offered, in one line: the default lane, and the menu.
pub open spec fn choices() -> Seq<char> {
    protocol::default_lane().model + " ("@ + names::name_of(protocol::default_lane().harness)
        + "), "@ + mcp::inline_menu(menu())
}

/// The refusal of a lane that is not offered: it names the default and the
/// menu.
pub open spec fn not_offered(lane: LaneView) -> ErrorView {
    store::unprocessable_error(
        "lane "@ + lane.model + " ("@ + names::name_of(lane.harness)
            + ") is not offered here; choose one of: "@ + choices(),
    )
}

/// Whether this installation offers a lane.
pub fn is_offered(lane: &Lane) -> (yes: bool)
    ensures
        yes == offered(lane@),
{
    if lane.harness == Harness::Mock {
        return true;
    }
    let usual: Lane = Lane::default();
    if lane.harness == usual.harness && text::same_text(&lane.model, &usual.model) {
        return true;
    }
    let rows: Vec<ModelChoice> = model_menu();
    let mut i: usize = 0;
    while i < rows.len()
        invariant
            i <= rows@.len(),
            protocol::menu_view(rows@) == menu(),
            forall|k: int| 0 <= k < i ==> !stands_for(#[trigger] menu()[k], lane@),
        decreases rows@.len() - i,
    {
        assert(protocol::menu_view(rows@)[i as int] == rows@[i as int]@);
        if rows[i].harness == lane.harness && text::same_text(&rows[i].model, &lane.model) {
            assert(stands_for(menu()[i as int], lane@));
            return true;
        }
        i += 1;
    }
    assert(protocol::menu_view(rows@).len() == rows@.len());
    false
}

/// Lets a lane through where it is offered, and where none is named; refuses
/// it otherwise.
pub fn check_lane(lane: &Option<Lane>) -> (outcome: Result<(), ApiError>)
    ensures
        match outcome {
            Ok(()) => lane is Some ==> offered(lane->0@),
            Err(error) => lane is Some && !offered(lane->0@) && error@ == not_offered(lane->0@),
        },
{
    match lane {
        Some(lane) => if is_offered(lane) {
            Ok(())
        } else {
            let mut message: String = "lane ".to_string();
            message.append(&lane.model);
            message.append(" (");
            message.append(&names::harness_name(lane.harness));
            message.append(") is not offered here; choose one of: ");
            let usual: Lane = Lane::default();
            message.append(&usual.model);
            message.append(" (");
            message.append(&names::harness_name(usual.harness));
            message.append("), ");
            message.append(&mcp::model_list_inline(&model_menu()));
            assert(message@ =~= not_offered(lane@).message);
            Err(ApiError::unprocessable(&message))
        },
        None => Ok(()),
    }
}

// ---------------------------------------------------------------------------
// Options
// ---------------------------------------------------------------------------

/// What the caller works with once its options were read.
pub struct Settings {
    /// The bearer token; None lets everyone through.
    pub token: Option<String>,
    pub config: CallerConfig,
    pub signer: CookieSigner,
}

/// A token that is set.
pub open spec fn set_token(token: Option<Seq<char>>) -> Option<Seq<char>> {
    if token is Some && token->0.len() > 0 {
        token
    } else {
        None
    }
}

/// A value that is there and not blank.
pub open spec fn set_text(value: Option<Seq<char>>) -> Option<Seq<char>> {
    if auth::given(value) {
        value
    } else {
        None
    }
}

/// What the login cookies are signed with: the operator's secret, else the
/// bearer token, else a fixed word.
pub open spec fn cookie_key(
    cookie_secret: Option<Seq<char>>,
    token: Option<Seq<char>>,
) -> Seq<char> {
    match set_text(cookie_secret) {
        Some(secret) => secret,
        None => match set_token(token) {
            Some(token) => token,
            None => "ceilidh-loopback"@,
        },
    }
}

/// Reads the caller's options.
pub fn settings(
    token: Option<String>,
    default_repo_url: Option<String>,
    cookie_secret: Option<String>,
) -> (settings: Settings)
    ensures
        text::opt_text(settings.token) == set_token(text::opt_text(token)),
        text::opt_text(settings.config.default_repo_url) == set_text(
            text::opt_text(default_repo_url),
        ),
        protocol::menu_view(settings.config.models@) == menu(),
        settings.signer@ == encode_utf8(
            cookie_key(text::opt_text(cookie_secret), text::opt_text(token)),
        ),
{
    let token: Option<String> = match token {
        Some(token) => if token.as_str().is_empty() {
            None
        } else {
            Some(token)
        },
        None => None,
    };
    let default_repo_url: Option<String> = match default_repo_url {
        Some(url) => if text::blank(&url) {
            None
        } else {
            Some(url)
        },
        None => None,
    };
    let secret: Option<String> = match cookie_secret {
        Some(secret) => if text::blank(&secret) {
            None
        } else {
            Some(secret)
        },
        None => None,
    };
    let signer: CookieSigner = match (&secret, &token) {
        (Some(secret), _) => CookieSigner::new(secret),
        (None, Some(token)) => CookieSigner::new(token),
        (None, None) => CookieSigner::new("ceilidh-loopback"),
    };
    Settings { token, config: CallerConfig { default_repo_url, models: model_menu() }, signer }
}

} // verus!
