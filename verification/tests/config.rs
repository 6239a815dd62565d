//! What flags and environment are made of.
use greenroom::config::{present, Args, Config, ConfigError};
use greenroom::invite::{NoRandomness, SigningKey};

fn args() -> Args {
    Args {
        public_url: "http://localhost:8090".to_string(),
        signing_key: Some("test-key".to_string()),
        webhook_token: Some("hook".to_string()),
        auth_disabled: None,
        reconcile_secs: 3,
        invite_ttl_secs: 3600,
        target_node: "strom-node-1".to_string(),
        target_network: "docker-host".to_string(),
        target_latency_ms: 200,
        northbound_url: "http://127.0.0.1:9080".to_string(),
        northbound_token: None,
        southbound_url: "http://127.0.0.1:8081".to_string(),
        southbound_token: None,
        open_live_url: "http://127.0.0.1:3000".to_string(),
        open_live_api_key: None,
    }
}

#[test]
fn given_values_are_kept() {
    let mut given = args();
    given.northbound_token = Some("north".to_string());
    given.southbound_token = Some(" south ".to_string());
    given.open_live_api_key = Some("live".to_string());
    let cfg = Config::from_args(given).unwrap();
    assert_eq!(cfg.public_url, "http://localhost:8090");
    assert_eq!(cfg.webhook_token.as_deref(), Some("hook"));
    assert_eq!(cfg.reconcile_secs, 3);
    assert_eq!(cfg.invite_ttl_secs, 3600);
    assert_eq!(cfg.target_node, "strom-node-1");
    assert_eq!(cfg.target_network.as_deref(), Some("docker-host"));
    assert_eq!(cfg.target_latency_ms, 200);
    assert_eq!(cfg.northbound_url, "http://127.0.0.1:9080");
    assert_eq!(cfg.northbound_token.as_deref(), Some("north"));
    assert_eq!(cfg.southbound_url, "http://127.0.0.1:8081");
    assert_eq!(cfg.southbound_token.as_deref(), Some(" south "));
    assert_eq!(cfg.open_live_url.as_deref(), Some("http://127.0.0.1:3000"));
    assert_eq!(cfg.open_live_api_key.as_deref(), Some("live"));
    assert_eq!(
        cfg.signing_key.mint("alice-1f2e", 1_757_000_000),
        "alice-1f2e.1757000000.mZB48welYkPkj8LQkt-MdQ"
    );
}

#[test]
fn webhooks_need_a_token_unless_that_is_waived() {
    for token in [None, Some(""), Some("  \t")] {
        for waiver in [None, Some("0"), Some("TRUE"), Some(""), Some("yes")] {
            let mut given = args();
            given.webhook_token = token.map(str::to_string);
            given.auth_disabled = waiver.map(str::to_string);
            let error = Config::from_args(given).unwrap_err();
            assert!(matches!(error, ConfigError::WebhookTokenUnset));
            assert_eq!(
                error.message(),
                "GREENROOM_WEBHOOK_TOKEN is unset, so any caller could report a node as \
                 registered. Set it to the controller's WEAVE_WEBHOOK_TOKEN, or set \
                 GREENROOM_AUTH_DISABLED=1 to accept that."
            );
        }
        for waiver in ["1", "true", " 1 ", "\ttrue\n"] {
            let mut given = args();
            given.webhook_token = token.map(str::to_string);
            given.auth_disabled = Some(waiver.to_string());
            assert_eq!(Config::from_args(given).unwrap().webhook_token, None);
        }
    }
}

#[test]
fn an_interval_and_a_lifetime_are_positive() {
    let mut given = args();
    given.reconcile_secs = 0;
    let error = Config::from_args(given).unwrap_err();
    assert!(matches!(error, ConfigError::ReconcileSecs));
    assert_eq!(error.message(), "GREENROOM_RECONCILE_SECS must be at least 1");

    for ttl in [0, -1, i64::MIN] {
        let mut given = args();
        given.invite_ttl_secs = ttl;
        let error = Config::from_args(given).unwrap_err();
        assert!(matches!(error, ConfigError::InviteTtlSecs));
        assert_eq!(error.message(), "GREENROOM_INVITE_TTL_SECS must be positive");
    }
}

#[test]
fn the_first_thing_amiss_is_told() {
    let mut given = args();
    given.webhook_token = None;
    given.reconcile_secs = 0;
    given.invite_ttl_secs = 0;
    assert!(matches!(
        Config::from_args(given),
        Err(ConfigError::WebhookTokenUnset)
    ));
    let mut given = args();
    given.reconcile_secs = 0;
    given.invite_ttl_secs = 0;
    assert!(matches!(
        Config::from_args(given),
        Err(ConfigError::ReconcileSecs)
    ));
}

#[test]
fn a_key_is_generated_where_none_is_given() {
    for unset in [None, Some(""), Some("   ")] {
        let mut first = args();
        first.signing_key = unset.map(str::to_string);
        let mut second = args();
        second.signing_key = unset.map(str::to_string);
        let first = Config::from_args(first).unwrap();
        let second = Config::from_args(second).unwrap();
        let token = first.signing_key.mint("alice-1f2e", 1);
        assert!(first.signing_key.verify(&token).is_ok());
        assert!(second.signing_key.verify(&token).is_err());
    }
}

#[test]
fn the_generated_key_is_the_one_that_signs() {
    let mut given = args();
    given.signing_key = None;
    let cfg = Config::with_key(given, Some(Ok(SigningKey::from_secret(b"test-key")))).unwrap();
    assert_eq!(cfg.signing_key.mint("alice-1f2e", -5), "alice-1f2e.-5.NjsByt4ErP4ixSOtGzxdRg");
}

#[test]
fn a_key_that_cannot_be_generated_is_told() {
    let mut given = args();
    given.signing_key = None;
    given.reconcile_secs = 0;
    let failed = Some(Err(NoRandomness(getrandom::Error::UNSUPPORTED)));
    let error = Config::with_key(given, failed).unwrap_err();
    assert!(matches!(
        &error,
        ConfigError::SigningKey(NoRandomness(cause)) if *cause == getrandom::Error::UNSUPPORTED
    ));
    assert_eq!(error.message(), "generating a signing key");
}

#[test]
fn a_given_key_is_used_as_it_stands() {
    let mut given = args();
    given.signing_key = Some(" test-key ".to_string());
    let cfg = Config::from_args(given).unwrap();
    let token = SigningKey::from_secret(b" test-key ").mint("alice-1f2e", 1);
    assert!(cfg.signing_key.verify(&token).is_ok());
}

#[test]
fn base_urls_lose_their_slashes() {
    let mut given = args();
    given.public_url = "https://green.room//".to_string();
    given.northbound_url = "http://north/".to_string();
    given.southbound_url = "///".to_string();
    given.open_live_url = "http://live/x///".to_string();
    let cfg = Config::from_args(given).unwrap();
    assert_eq!(cfg.public_url, "https://green.room");
    assert_eq!(cfg.northbound_url, "http://north");
    assert_eq!(cfg.southbound_url, "");
    assert_eq!(cfg.open_live_url.as_deref(), Some("http://live/x"));
}

#[test]
fn blank_values_read_as_unset() {
    let mut given = args();
    given.target_network = " ".to_string();
    given.northbound_token = Some("".to_string());
    given.southbound_token = Some("\n".to_string());
    given.open_live_url = "\t ".to_string();
    given.open_live_api_key = Some("  ".to_string());
    let cfg = Config::from_args(given).unwrap();
    assert_eq!(cfg.target_network, None);
    assert_eq!(cfg.northbound_token, None);
    assert_eq!(cfg.southbound_token, None);
    assert_eq!(cfg.open_live_url, None);
    assert_eq!(cfg.open_live_api_key, None);
}

#[test]
fn white_space_is_what_unicode_says() {
    for c in '\0'..=char::MAX {
        let value = c.to_string();
        assert_eq!(present(Some(value.clone())).is_none(), c.is_whitespace(), "{c:?}");
    }
    assert_eq!(present(None), None);
    assert_eq!(present(Some(" a ".to_string())), Some(" a ".to_string()));
    assert_eq!(present(Some("\u{2003}\u{a0}\u{85}".to_string())), None);
}

#[test]
fn links_stand_behind_the_public_url() {
    let mut given = args();
    given.public_url = "https://green.room/".to_string();
    let cfg = Config::from_args(given).unwrap();
    let token = cfg.signing_key.mint("alice-1f2e", 1_757_000_000);
    assert_eq!(
        cfg.join_url(&token),
        "https://green.room/j/alice-1f2e.1757000000.mZB48welYkPkj8LQkt-MdQ"
    );
    assert_eq!(cfg.join_url(""), "https://green.room/j/");
}
