//! What the gateway is configured with.
use vstd::prelude::*;
use vstd::string::StringExecFns;
use vstd::utf8::encode_utf8;

use crate::decimal::decimal;
use crate::invite::{base64_text, claim_of, sealed, tag_of, NoRandomness, SigningKey};
use crate::text::{
    drop_trailing, is_white_space, law_dropped_run_is_gone, law_trimming_leaves_nothing_of_blanks,
    same, text_of, trim, trimmed, without_trailing,
};

verus! {

/// The values that flags and environment give. The address to listen on and the
/// paths are no part of the rules below and stay with whoever opens them.
#[derive(Debug)]
pub struct Args {
    /// Base URL join links are built from. Guests must be able to reach it.
    pub public_url: String,
    /// Signs invite links. Generated at boot when unset, which invalidates
    /// links issued by an earlier run.
    pub signing_key: Option<String>,
    /// Bearer token the controller must present on the webhook route.
    pub webhook_token: Option<String>,
    /// Set to 1 or true to accept unauthenticated webhook deliveries.
    pub auth_disabled: Option<String>,
    /// How often desired state is reconciled against weave and open-live.
    pub reconcile_secs: u64,
    /// How long a fresh invite stays usable.
    pub invite_ttl_secs: i64,
    /// The node a guest's camera is delivered to, and the alias of its
    /// data-plane address. The alias decides which signalling URL the guest's
    /// browser is given, so it has to be one the browser can reach.
    pub target_node: String,
    pub target_network: String,
    pub target_latency_ms: u32,
    pub northbound_url: String,
    pub northbound_token: Option<String>,
    pub southbound_url: String,
    pub southbound_token: Option<String>,
    /// open-live's API, read to show whether a guest's source landed there.
    /// Blank drops that column.
    pub open_live_url: String,
    pub open_live_api_key: Option<String>,
}

#[derive(Debug)]
pub struct Config {
    pub public_url: String,
    pub signing_key: SigningKey,
    pub webhook_token: Option<String>,
    pub reconcile_secs: u64,
    pub invite_ttl_secs: i64,
    pub target_node: String,
    pub target_network: Option<String>,
    pub target_latency_ms: u32,
    pub northbound_url: String,
    pub northbound_token: Option<String>,
    pub southbound_url: String,
    pub southbound_token: Option<String>,
    pub open_live_url: Option<String>,
    pub open_live_api_key: Option<String>,
}

/// A configuration as mathematics.
pub struct ConfigModel {
    pub public_url: Seq<char>,
    pub signing_key: Seq<u8>,
    pub webhook_token: Option<Seq<char>>,
    pub reconcile_secs: u64,
    pub invite_ttl_secs: i64,
    pub target_node: Seq<char>,
    pub target_network: Option<Seq<char>>,
    pub target_latency_ms: u32,
    pub northbound_url: Seq<char>,
    pub northbound_token: Option<Seq<char>>,
    pub southbound_url: Seq<char>,
    pub southbound_token: Option<Seq<char>>,
    pub open_live_url: Option<Seq<char>>,
    pub open_live_api_key: Option<Seq<char>>,
}

impl View for Config {
    type V = ConfigModel;

    open spec fn view(&self) -> ConfigModel {
        ConfigModel {
            public_url: self.public_url@,
            signing_key: self.signing_key@,
            webhook_token: text_of(self.webhook_token),
            reconcile_secs: self.reconcile_secs,
            invite_ttl_secs: self.invite_ttl_secs,
            target_node: self.target_node@,
            target_network: text_of(self.target_network),
            target_latency_ms: self.target_latency_ms,
            northbound_url: self.northbound_url@,
            northbound_token: text_of(self.northbound_token),
            southbound_url: self.southbound_url@,
            southbound_token: text_of(self.southbound_token),
            open_live_url: text_of(self.open_live_url),
            open_live_api_key: text_of(self.open_live_api_key),
        }
    }
}

/// Why a configuration is refused.
#[derive(Debug)]
pub enum ConfigError {
    WebhookTokenUnset,
    SigningKey(NoRandomness),
    ReconcileSecs,
    InviteTtlSecs,
}

impl ConfigError {
    pub fn message(&self) -> (r: &'static str)
        ensures
            r@ == (match self {
                ConfigError::WebhookTokenUnset => "GREENROOM_WEBHOOK_TOKEN is unset, so any caller could report a node as registered. Set it to the controller's WEAVE_WEBHOOK_TOKEN, or set GREENROOM_AUTH_DISABLED=1 to accept that."@,
                ConfigError::SigningKey(_) => "generating a signing key"@,
                ConfigError::ReconcileSecs => "GREENROOM_RECONCILE_SECS must be at least 1"@,
                ConfigError::InviteTtlSecs => "GREENROOM_INVITE_TTL_SECS must be positive"@,
            }),
    {
        match self {
            ConfigError::WebhookTokenUnset => "GREENROOM_WEBHOOK_TOKEN is unset, so any caller could report a node as registered. Set it to the controller's WEAVE_WEBHOOK_TOKEN, or set GREENROOM_AUTH_DISABLED=1 to accept that.",
            ConfigError::SigningKey(_) => "generating a signing key",
            ConfigError::ReconcileSecs => "GREENROOM_RECONCILE_SECS must be at least 1",
            ConfigError::InviteTtlSecs => "GREENROOM_INVITE_TTL_SECS must be positive",
        }
    }
}

/// A value that is more than white space.
pub open spec fn present_of(value: Option<Seq<char>>) -> Option<Seq<char>> {
    match value {
        Some(text) => if trimmed(text).len() > 0 {
            Some(text)
        } else {
            None
        },
        None => None,
    }
}

/// Blank and whitespace-only values read as unset, as they do in open-weave.
pub fn present(value: Option<String>) -> (r: Option<String>)
    ensures
        text_of(r) == present_of(text_of(value)),
{
    match value {
        Some(text) => if trim(text.as_str()).is_empty() {
            None
        } else {
            Some(text)
        },
        None => None,
    }
}

fn present_in(value: &Option<String>) -> (r: bool)
    ensures
        r == present_of(text_of(*value)) is Some,
{
    match value {
        Some(text) => !trim(text.as_str()).is_empty(),
        None => false,
    }
}

/// A base URL without the slashes at its end.
pub open spec fn base_of(url: Seq<char>) -> Seq<char> {
    without_trailing(url, '/')
}

impl Args {
    pub open spec fn auth_is_disabled(self) -> bool {
        match text_of(self.auth_disabled) {
            Some(text) => trimmed(text) == "1"@ || trimmed(text) == "true"@,
            None => false,
        }
    }

    /// Webhooks are answered only to a bearer token, unless that is waived.
    pub open spec fn webhooks_are_settled(self) -> bool {
        present_of(text_of(self.webhook_token)) is Some || self.auth_is_disabled()
    }

    pub open spec fn key_is_given(self) -> bool {
        present_of(text_of(self.signing_key)) is Some
    }

    /// Whether a signing key has to be generated: none is given, and the
    /// configuration is not refused before that.
    pub open spec fn wants_key(self) -> bool {
        self.webhooks_are_settled() && !self.key_is_given()
    }

    /// The configuration that the values make with a signing key.
    pub open spec fn configured(self, key: Seq<u8>) -> ConfigModel {
        ConfigModel {
            public_url: base_of(self.public_url@),
            signing_key: key,
            webhook_token: present_of(text_of(self.webhook_token)),
            reconcile_secs: self.reconcile_secs,
            invite_ttl_secs: self.invite_ttl_secs,
            target_node: self.target_node@,
            target_network: present_of(Some(self.target_network@)),
            target_latency_ms: self.target_latency_ms,
            northbound_url: base_of(self.northbound_url@),
            northbound_token: present_of(text_of(self.northbound_token)),
            southbound_url: base_of(self.southbound_url@),
            southbound_token: present_of(text_of(self.southbound_token)),
            open_live_url: match present_of(Some(self.open_live_url@)) {
                Some(url) => Some(base_of(url)),
                None => None,
            },
            open_live_api_key: present_of(text_of(self.open_live_api_key)),
        }
    }

    /// The given signing key.
    pub open spec fn given_key(self) -> Seq<u8> {
        encode_utf8(text_of(self.signing_key)->0)
    }

    fn auth_disabled(&self) -> (r: bool)
        ensures
            r == self.auth_is_disabled(),
    {
        match &self.auth_disabled {
            Some(text) => {
                let value = trim(text.as_str());
                same(value, "1") || same(value, "true")
            },
            None => false,
        }
    }

    fn needs_key(&self) -> (r: bool)
        ensures
            r == self.wants_key(),
    {
        (present_in(&self.webhook_token) || self.auth_disabled()) && !present_in(&self.signing_key)
    }
}

/// What comes of the values and of generating a signing key: the first thing amiss, in the order
/// webhook token, signing key, interval, lifetime; else the configuration.
pub open spec fn settled(
    args: Args,
    generated: Option<Result<SigningKey, NoRandomness>>,
    r: Result<Config, ConfigError>,
) -> bool {
    if !args.webhooks_are_settled() {
        r matches Err(ConfigError::WebhookTokenUnset)
    } else if args.wants_key() && generated->0 is Err {
        r == Err::<Config, ConfigError>(ConfigError::SigningKey(generated->0->Err_0))
    } else if args.reconcile_secs == 0 {
        r matches Err(ConfigError::ReconcileSecs)
    } else if args.invite_ttl_secs <= 0 {
        r matches Err(ConfigError::InviteTtlSecs)
    } else {
        r matches Ok(cfg) && cfg@ == args.configured(
            if args.key_is_given() {
                args.given_key()
            } else {
                (generated->0->Ok_0)@
            },
        )
    }
}

fn base(url: &String) -> (r: String)
    ensures
        r@ == base_of(url@),
{
    drop_trailing(url.as_str(), '/').to_owned()
}

impl Config {
    /// The configuration that the values make. A signing key is generated where
    /// none is given.
    pub fn from_args(args: Args) -> (r: Result<Self, ConfigError>)
        ensures
            !args.wants_key() ==> settled(args, None, r),
            args.wants_key() ==> exists|generated: Result<SigningKey, NoRandomness>|
                #[trigger] settled(args, Some(generated), r) && (generated is Ok ==> (
                generated->Ok_0)@.len() == 32),
    {
        if args.needs_key() {
            let generated = SigningKey::generate();
            Config::with_key(args, Some(generated))
        } else {
            Config::with_key(args, None)
        }
    }

    /// The configuration that the values make, with what generating a signing
    /// key gave where one was wanted.
    pub fn with_key(args: Args, generated: Option<Result<SigningKey, NoRandomness>>) -> (r: Result<
        Self,
        ConfigError,
    >)
        requires
            args.wants_key() ==> generated is Some,
        ensures
            settled(args, generated, r),
    {
        let auth_disabled = args.auth_disabled();
        let webhook_token = present(args.webhook_token);
        if webhook_token.is_none() && !auth_disabled {
            return Err(ConfigError::WebhookTokenUnset);
        }
        let signing_key = match present(args.signing_key) {
            Some(key) => SigningKey::from_secret(key.as_str().as_bytes()),
            None => match generated {
                Some(Ok(key)) => key,
                Some(Err(error)) => return Err(ConfigError::SigningKey(error)),
                None => {
                    assert(false);
                    return Err(ConfigError::WebhookTokenUnset);
                },
            },
        };
        if args.reconcile_secs == 0 {
            return Err(ConfigError::ReconcileSecs);
        }
        if args.invite_ttl_secs <= 0 {
            return Err(ConfigError::InviteTtlSecs);
        }
        Ok(
            Config {
                public_url: base(&args.public_url),
                signing_key,
                webhook_token,
                reconcile_secs: args.reconcile_secs,
                invite_ttl_secs: args.invite_ttl_secs,
                target_node: args.target_node,
                target_network: present(Some(args.target_network)),
                target_latency_ms: args.target_latency_ms,
                northbound_url: base(&args.northbound_url),
                northbound_token: present(args.northbound_token),
                southbound_url: base(&args.southbound_url),
                southbound_token: present(args.southbound_token),
                open_live_url: match present(Some(args.open_live_url)) {
                    Some(url) => Some(base(&url)),
                    None => None,
                },
                open_live_api_key: present(args.open_live_api_key),
            },
        )
    }

    /// The link that a guest opens.
    pub fn join_url(&self, token: &str) -> (r: String)
        ensures
            r@ == link(self@, token@),
    {
        let mut url = self.public_url.clone();
        url.append("/j/");
        url.append(token);
        url
    }
}

/// `<base>/j/<token>`.
pub open spec fn link(cfg: ConfigModel, token: Seq<char>) -> Seq<char> {
    cfg.public_url + "/j/"@ + token
}

/// A value reads as unset exactly where it is not given or is white space throughout.
pub proof fn law_blank_values_read_as_unset(value: Option<Seq<char>>)
    ensures
        present_of(value) is None <==> (value matches Some(text) ==> forall|i: int|
            0 <= i < text.len() ==> is_white_space(#[trigger] text[i])),
        present_of(value) is Some ==> present_of(value) == value,
{
    if let Some(text) = value {
        law_trimming_leaves_nothing_of_blanks(text);
    }
}

/// The gateway takes webhooks without a token only where that was asked for.
pub proof fn law_open_webhooks_are_asked_for(
    args: Args,
    generated: Option<Result<SigningKey, NoRandomness>>,
    r: Result<Config, ConfigError>,
)
    requires
        settled(args, generated, r),
        r matches Ok(cfg) && cfg@.webhook_token is None,
    ensures
        args.auth_is_disabled(),
{
}

/// Base URLs do not end in a slash, so a path may be put behind them.
pub proof fn law_base_urls_end_without_a_slash(args: Args, key: Seq<u8>)
    ensures
        ({
            let cfg = args.configured(key);
            &&& !seq!['/'].is_suffix_of(cfg.public_url)
            &&& !seq!['/'].is_suffix_of(cfg.northbound_url)
            &&& !seq!['/'].is_suffix_of(cfg.southbound_url)
            &&& cfg.open_live_url matches Some(url) ==> !seq!['/'].is_suffix_of(url)
        }),
{
    lemma_base_ends_without_a_slash(args.public_url@);
    lemma_base_ends_without_a_slash(args.northbound_url@);
    lemma_base_ends_without_a_slash(args.southbound_url@);
    lemma_base_ends_without_a_slash(args.open_live_url@);
}

proof fn lemma_base_ends_without_a_slash(url: Seq<char>)
    ensures
        !seq!['/'].is_suffix_of(base_of(url)),
{
    law_dropped_run_is_gone(url, '/');
    let base = base_of(url);
    if seq!['/'].is_suffix_of(base) {
        assert(base.subrange(base.len() - 1, base.len() as int)[0] == base.last());
        assert(seq!['/'][0] == '/');
    }
}

/// A link shows the seat and the expiry that its tag vouches for.
pub proof fn law_links_show_their_seat(cfg: ConfigModel, seat: Seq<char>, expires_at: i64)
    ensures
        link(cfg, sealed(cfg.signing_key, claim_of(seat, expires_at))) == cfg.public_url + "/j/"@
            + seat + seq!['.'] + decimal(expires_at as int) + seq!['.'] + base64_text(
            tag_of(cfg.signing_key, claim_of(seat, expires_at)),
        ),
{
    assert(link(cfg, sealed(cfg.signing_key, claim_of(seat, expires_at))) =~= cfg.public_url
        + "/j/"@ + seat + seq!['.'] + decimal(expires_at as int) + seq!['.'] + base64_text(
        tag_of(cfg.signing_key, claim_of(seat, expires_at)),
    ));
}

} // verus!
