//! What the operator, the guests and weave are answered.
use greenroom::assets::{load, served, Embedded};
use greenroom::config::{Args, Config};
use greenroom::invite::{NoRandomness, SigningKey};
use greenroom::routes::{
    create_invite, create_invite_at, desired, heartbeat, kept, passed_on, record, register,
    registered, revoke, seat_for, seats, session, weave_event, Answer, ApiError, InviteFailure,
    InviteRequest,
};
use greenroom::seat::{Seat, SeatStore};
use greenroom::snapshot::{NodeFacts, Snapshot, State};
use greenroom::weave::{HopState, HopStatus, LinkCondition, Method, NodeStatus, Weave};

const NOW: i64 = 1_757_000_000;

fn args() -> Args {
    Args {
        public_url: "http://localhost:8090/".to_string(),
        signing_key: Some("test-key".to_string()),
        webhook_token: Some("hook".to_string()),
        auth_disabled: None,
        reconcile_secs: 3,
        invite_ttl_secs: 3600,
        target_node: "strom-node-1".to_string(),
        target_network: "docker-host".to_string(),
        target_latency_ms: 200,
        northbound_url: "http://north".to_string(),
        northbound_token: None,
        southbound_url: "http://south".to_string(),
        southbound_token: Some("node".to_string()),
        open_live_url: "http://live".to_string(),
        open_live_api_key: None,
    }
}

fn config() -> Config {
    Config::from_args(args()).unwrap()
}

fn weave() -> Weave {
    Weave::new(
        "http://north".to_string(),
        None,
        "http://south".to_string(),
        Some("node".to_string()),
    )
}

fn empty() -> SeatStore {
    SeatStore::load(Vec::new())
}

fn request(name: &str, ttl_secs: Option<i64>) -> InviteRequest {
    InviteRequest { name: name.to_string(), ttl_secs }
}

fn is(error: ApiError, status: u16, message: &str) {
    assert_eq!(error.status, status);
    assert_eq!(error.message, message);
}

/// A store with a seat for Alice, and the token that opens it.
fn invited() -> (SeatStore, String) {
    let mut store = empty();
    let (answer, view) = create_invite_at(
        &config(),
        &mut store,
        &Snapshot::default(),
        &request("Alice", None),
        NOW,
        "1f2e",
    )
    .unwrap();
    assert_eq!(answer, Answer { status: 201, nudge: true });
    let token = view.join_url.strip_prefix("http://localhost:8090/j/").unwrap().to_string();
    (store, token)
}

fn hops() -> Vec<HopStatus> {
    vec![HopStatus {
        id: "alice-1f2e-sender".to_string(),
        state: HopState::Other,
        egress: LinkCondition::Connected,
        rate: Some("1.25".to_string()),
    }]
}

#[test]
fn an_invite_makes_a_seat() {
    let mut store = empty();
    let (answer, view) = create_invite_at(
        &config(),
        &mut store,
        &Snapshot::default(),
        &request("  Ada Lovelace ", Some(60)),
        NOW,
        "00ff",
    )
    .unwrap();
    assert_eq!(answer, Answer { status: 201, nudge: true });
    assert_eq!(view.seat, "ada-lovelace-00ff");
    assert_eq!(view.display_name, "Ada Lovelace");
    assert_eq!(view.stage, "invited");
    assert_eq!(view.created_at, "2025-09-04T15:33:20Z");
    assert_eq!(view.expires_at, "2025-09-04T15:34:20Z");
    let seat = store.get("ada-lovelace-00ff").unwrap();
    assert_eq!(seat.seat, "ada-lovelace-00ff");
    assert_eq!(seat.display_name, "Ada Lovelace");
    assert_eq!(seat.created_at, NOW);
    assert_eq!(seat.expires_at, NOW + 60);
    assert!(!seat.revoked);
    assert_eq!(seat.joined_at, None);
    assert_eq!(
        seat.token,
        SigningKey::from_secret(b"test-key").mint("ada-lovelace-00ff", NOW + 60)
    );
    assert_eq!(view.join_url, format!("http://localhost:8090/j/{}", seat.token));
}

#[test]
fn an_invite_lasts_as_configured_unless_told_otherwise() {
    let (store, _) = invited();
    assert_eq!(store.get("alice-1f2e").unwrap().expires_at, NOW + 3600);
}

#[test]
fn an_invite_needs_a_name_of_some_length() {
    let cfg = config();
    let snapshot = Snapshot::default();
    let mut store = empty();
    for name in ["", "   ", "\t\u{3000}"] {
        let error = create_invite(&cfg, &mut store, &snapshot, &request(name, None)).unwrap_err();
        is(error.answer(), 400, "a guest needs a name");
    }
    let long = "é".repeat(65);
    let error = create_invite(&cfg, &mut store, &snapshot, &request(&long, None)).unwrap_err();
    is(error.answer(), 400, "that name is too long");
    assert!(store.list().is_empty());
    let longest = format!(" {} ", "é".repeat(64));
    assert!(create_invite(&cfg, &mut store, &snapshot, &request(&longest, None)).is_ok());
    assert_eq!(store.list().len(), 1);
}

#[test]
fn an_invite_lasts_between_a_minute_and_a_week() {
    let cfg = config();
    let snapshot = Snapshot::default();
    let mut store = empty();
    for ttl in [59, 0, -1, i64::MIN, 604_801, i64::MAX] {
        let error =
            create_invite(&cfg, &mut store, &snapshot, &request("Alice", Some(ttl))).unwrap_err();
        is(error.answer(), 400, "a link lasts between a minute and a week");
    }
    for ttl in [60, 604_800] {
        assert!(create_invite(&cfg, &mut store, &snapshot, &request("Alice", Some(ttl))).is_ok());
    }
    // The configured lifetime is held to the same bounds.
    let mut short = args();
    short.invite_ttl_secs = 59;
    let short = Config::from_args(short).unwrap();
    let error =
        create_invite(&short, &mut store, &snapshot, &request("Alice", None)).unwrap_err();
    is(error.answer(), 400, "a link lasts between a minute and a week");
}

#[test]
fn the_first_fault_of_a_request_is_told() {
    let error = create_invite(
        &config(),
        &mut empty(),
        &Snapshot::default(),
        &request(" ", Some(1)),
    )
    .unwrap_err();
    is(error.answer(), 400, "a guest needs a name");
}

#[test]
fn a_fresh_invite_opens_its_seat() {
    let cfg = config();
    let mut store = empty();
    let snapshot = Snapshot::default();
    let (answer, view) =
        create_invite(&cfg, &mut store, &snapshot, &request("Alice", None)).unwrap();
    assert_eq!(answer, Answer { status: 201, nudge: true });
    assert!(view.seat.starts_with("alice-"));
    assert_eq!(view.seat.len(), "alice-".len() + 4);
    let seat = store.get(&view.seat).unwrap().clone();
    assert!((greenroom::clock::now() - seat.created_at).abs() < 60);
    let found = seat_for(&cfg, &store, &seat.token, seat.created_at).unwrap();
    assert_eq!(found.seat, view.seat);
}

#[test]
fn a_link_opens_until_it_expires() {
    let cfg = config();
    let (store, token) = invited();
    assert_eq!(seat_for(&cfg, &store, &token, NOW + 3599).unwrap().seat, "alice-1f2e");
    is(seat_for(&cfg, &store, &token, NOW + 3600).unwrap_err(), 410, "invite expired");
}

#[test]
fn an_unknown_link_is_told_so() {
    let cfg = config();
    let (store, token) = invited();
    let forged = SigningKey::from_secret(b"other-key").mint("alice-1f2e", NOW + 3600);
    let tampered = token.replace("alice", "bob");
    for token in ["", "alice-1f2e", forged.as_str(), tampered.as_str()] {
        is(seat_for(&cfg, &store, token, NOW).unwrap_err(), 404, "unknown invite");
        is(seat_for(&cfg, &empty(), token, NOW).unwrap_err(), 404, "unknown invite");
    }
}

#[test]
fn a_link_to_a_seat_that_is_gone_is_revoked() {
    let (_, token) = invited();
    is(seat_for(&config(), &empty(), &token, NOW).unwrap_err(), 410, "invite revoked");
}

#[test]
fn the_seat_and_not_the_link_says_when_it_expires() {
    let (store, _) = invited();
    let earlier = SigningKey::from_secret(b"test-key").mint("alice-1f2e", 1);
    assert!(seat_for(&config(), &store, &earlier, NOW).is_ok());
}

#[test]
fn revoking_closes_the_link_and_keeps_the_seat() {
    let cfg = config();
    let (mut store, token) = invited();
    let first = revoke(&mut store, "alice-1f2e").unwrap();
    assert_eq!(first.answer, Answer { status: 204, nudge: true });
    assert!(first.changed);
    assert!(store.get("alice-1f2e").unwrap().revoked);
    is(seat_for(&cfg, &store, &token, NOW).unwrap_err(), 410, "invite revoked");
    // Revoked is told before expired.
    is(seat_for(&cfg, &store, &token, NOW + 9999).unwrap_err(), 410, "invite revoked");
    let again = revoke(&mut store, "alice-1f2e").unwrap();
    assert_eq!(again.answer, Answer { status: 204, nudge: true });
    assert!(!again.changed);
    is(revoke(&mut store, "nobody").unwrap_err(), 404, "no such seat");
    assert_eq!(store.list().len(), 1);
}

#[test]
fn both_pages_show_the_same() {
    let cfg = config();
    let (mut store, token) = invited();
    store.insert(Seat {
        seat: "bob-0000".to_string(),
        created_at: NOW + 1,
        ..store.get("alice-1f2e").unwrap().clone()
    });
    let mut snapshot = Snapshot::default();
    snapshot.reconciled_at = "then".to_string();
    snapshot.errors.push("weave northbound unreachable".to_string());
    snapshot.nodes.insert("alice-1f2e".to_string(), NodeFacts { status: NodeStatus::Ready });
    record(&mut snapshot, "alice-1f2e", hops());

    let page = seats(&cfg, &store, &snapshot, NOW);
    assert_eq!(page.target_node, "strom-node-1");
    assert_eq!(page.target_network.as_deref(), Some("docker-host"));
    assert_eq!(page.open_live.as_deref(), Some("http://live"));
    assert_eq!(page.reconciled_at, "then");
    assert_eq!(page.errors, ["weave northbound unreachable"]);
    assert_eq!(page.seats.len(), 2);
    assert_eq!(page.seats[0].seat, "bob-0000");
    let shown = &page.seats[1];

    let guest = session(&cfg, &store, &snapshot, &token, NOW).unwrap();
    assert_eq!(guest.seat, shown.seat);
    assert_eq!(guest.display_name, shown.display_name);
    assert_eq!(guest.expires_at, shown.expires_at);
    assert_eq!(guest.stage, "joined");
    assert_eq!(guest.stage, shown.stage);
    assert_eq!(guest.chain.len(), 5);
    for (told, shown) in guest.chain.iter().zip(&shown.chain) {
        assert_eq!(told.step, shown.step);
        assert_eq!(told.state, shown.state);
        assert_eq!(told.detail, shown.detail);
    }
    assert_eq!(guest.chain[3].state, State::Active);
    assert_eq!(guest.chain[3].detail.as_deref(), Some("1.25 Mb/s from the browser"));
}

#[test]
fn a_session_needs_a_link_that_opens() {
    let (store, token) = invited();
    let snapshot = Snapshot::default();
    is(
        session(&config(), &store, &snapshot, "x", NOW).unwrap_err(),
        404,
        "unknown invite",
    );
    is(
        session(&config(), &store, &snapshot, &token, NOW + 3600).unwrap_err(),
        410,
        "invite expired",
    );
}

#[test]
fn a_guest_registers_as_the_seat_of_the_link() {
    let (store, token) = invited();
    let mut snapshot = Snapshot::default();
    let (call, registration) = register(
        &config(),
        &weave(),
        &store,
        &mut snapshot,
        &token,
        NOW,
        hops(),
        vec!["as it came"],
    )
    .unwrap();
    assert_eq!(call.method, Method::Post);
    assert_eq!(call.url, "http://south/v1/nodes/register");
    assert_eq!(call.bearer.as_deref(), Some("node"));
    assert_eq!(registration.node.id, "alice-1f2e");
    assert_eq!(registration.node.endpoint, "browser://alice-1f2e");
    assert_eq!(registration.hop_status, ["as it came"]);
    assert_eq!(snapshot.reported.get("alice-1f2e").unwrap().len(), 1);
}

#[test]
fn a_guest_heartbeats_as_the_seat_of_the_link() {
    let (store, token) = invited();
    let mut snapshot = Snapshot::default();
    record(&mut snapshot, "alice-1f2e", hops());
    let (call, beat) = heartbeat(
        &config(),
        &weave(),
        &store,
        &mut snapshot,
        &token,
        NOW,
        Vec::new(),
        vec![7],
    )
    .unwrap();
    assert_eq!(call.method, Method::Post);
    assert_eq!(call.url, "http://south/v1/nodes/alice-1f2e/heartbeat");
    assert_eq!(call.bearer.as_deref(), Some("node"));
    assert_eq!(beat.node_id, "alice-1f2e");
    assert_eq!(beat.status, NodeStatus::Ready);
    assert_eq!(beat.hop_status, [7]);
    assert!(snapshot.reported.get("alice-1f2e").unwrap().is_empty());
}

#[test]
fn a_guest_asks_for_the_hops_of_the_seat_of_the_link() {
    let (store, token) = invited();
    let call = desired(&config(), &weave(), &store, &token, NOW).unwrap();
    assert_eq!(call.method, Method::Get);
    assert_eq!(call.url, "http://south/v1/nodes/alice-1f2e/desired");
    assert_eq!(call.bearer.as_deref(), Some("node"));
}

#[test]
fn a_registration_that_weave_takes_wakes_the_loop() {
    for status in [200, 201, 204, 299] {
        assert_eq!(registered(Ok(status)).unwrap(), Answer { status, nudge: true });
    }
    for status in [100, 199, 300, 401, 503] {
        assert_eq!(registered(Ok(status)).unwrap(), Answer { status, nudge: false });
    }
    let error = registered(Err("weave southbound unreachable: x".to_string())).unwrap_err();
    is(error, 502, "weave southbound unreachable: x");
}

#[test]
fn what_is_passed_on_wakes_nobody() {
    for status in [200, 404, 503] {
        assert_eq!(passed_on(Ok(status)).unwrap(), Answer { status, nudge: false });
    }
    let error = passed_on(Err("reading weave's response: x".to_string())).unwrap_err();
    is(error, 502, "reading weave's response: x");
}

#[test]
fn seats_that_are_not_saved_wake_nobody() {
    let answer = Answer { status: 201, nudge: true };
    assert_eq!(kept(answer, true).unwrap(), answer);
    is(kept(answer, false).unwrap_err(), 500, "the gateway failed");
}

#[test]
fn nothing_passes_or_is_recorded_without_a_link_that_opens() {
    let (store, token) = invited();
    let mut snapshot = Snapshot::default();
    let late = NOW + 3600;
    let cfg = config();
    let error = register(
        &cfg, &weave(), &store, &mut snapshot, &token, late, hops(), vec![1],
    )
    .unwrap_err();
    is(error, 410, "invite expired");
    let error = heartbeat(
        &cfg, &weave(), &store, &mut snapshot, "x", NOW, hops(), vec![1],
    )
    .unwrap_err();
    is(error, 404, "unknown invite");
    is(
        desired(&cfg, &weave(), &empty(), &token, NOW).unwrap_err(),
        410,
        "invite revoked",
    );
    assert_eq!(snapshot.reported.len(), 0);
}

#[test]
fn a_delivery_needs_the_token() {
    let cfg = config();
    let (store, _) = invited();
    for header in [
        None,
        Some(""),
        Some("hook"),
        Some("Bearer"),
        Some("Bearer "),
        Some("bearer hook"),
        Some("Bearer hoo"),
        Some("Bearer hook "),
        Some("Bearer  hook"),
    ] {
        let error = weave_event(&cfg, &store, header, "alice-1f2e").unwrap_err();
        is(error, 401, "missing or invalid bearer token");
    }
    let delivery = weave_event(&cfg, &store, Some("Bearer hook"), "alice-1f2e").unwrap();
    assert_eq!(delivery.status, 202);
    assert!(delivery.nudge);
}

#[test]
fn a_delivery_of_a_strangers_is_taken_and_left_at_that() {
    let (store, _) = invited();
    let delivery = weave_event(&config(), &store, Some("Bearer hook"), "strom-node-1").unwrap();
    assert_eq!(delivery.status, 202);
    assert!(!delivery.nudge);
}

#[test]
fn deliveries_need_no_token_where_that_is_waived() {
    let mut open = args();
    open.webhook_token = None;
    open.auth_disabled = Some("1".to_string());
    let open = Config::from_args(open).unwrap();
    let (store, _) = invited();
    for header in [None, Some("Bearer anything")] {
        assert_eq!(weave_event(&open, &store, header, "alice-1f2e").unwrap().status, 202);
    }
}

#[test]
fn failures_are_answered() {
    let failure = InviteFailure::NoRandomness(NoRandomness(getrandom::Error::UNSUPPORTED));
    is(failure.answer(), 500, "the gateway failed");
    is(InviteFailure::Refused(ApiError::new(400, "no")).answer(), 400, "no");
    is(ApiError::internal(), 500, "the gateway failed");
    is(ApiError::bad_gateway("weave southbound unreachable"), 502, "weave southbound unreachable");
    is(ApiError::no_such_page(), 404, "no such page");
    is(ApiError::new(418, "teapot"), 418, "teapot");
}

const PAGES: Embedded = Embedded {
    base_css: "css",
    guest_html: "guest page",
    guest_js: "guest script",
    operator_html: "operator page",
    operator_js: "operator script",
};

#[test]
fn pages_are_served_by_name() {
    for (name, content_type, body) in [
        ("base.css", "text/css; charset=utf-8", "css"),
        ("guest.html", "text/html; charset=utf-8", "guest page"),
        ("guest.js", "text/javascript; charset=utf-8", "guest script"),
        ("operator.html", "text/html; charset=utf-8", "operator page"),
        ("operator.js", "text/javascript; charset=utf-8", "operator script"),
    ] {
        assert!(served(name));
        let asset = load(name, &PAGES, None).unwrap();
        assert_eq!(asset.content_type, content_type);
        assert_eq!(asset.body, body);
        let asset = load(name, &PAGES, Some("from disk".to_string())).unwrap();
        assert_eq!(asset.content_type, content_type);
        assert_eq!(asset.body, "from disk");
    }
}

#[test]
fn nothing_else_is_served() {
    for name in ["", "base.css/", "../base.css", "Base.css", "index.html", "guest.html\0"] {
        assert!(!served(name), "{name:?}");
        assert!(load(name, &PAGES, Some("from disk".to_string())).is_none());
    }
}
