//! What a tick finds, does and leaves.
use greenroom::config::{Args, Config};
use greenroom::live::{Provider, Source};
use greenroom::reconcile::{conclude, mark_joined, observe, plan, tick, Action, Findings};
use greenroom::seat::{Seat, SeatStore};
use greenroom::snapshot::{SeatView, Snapshot, State};
use greenroom::weave::{
    HopState, HopStatus, LinkCondition, NodeStatus, StatusRollup, StreamStatus, StreamTransport,
};

const NOW: i64 = 1_757_000_000;

fn config() -> Config {
    Config::from_args(Args {
        public_url: "http://localhost:8090".to_string(),
        signing_key: Some("test-key".to_string()),
        webhook_token: Some("hook".to_string()),
        auth_disabled: None,
        reconcile_secs: 3,
        invite_ttl_secs: 3600,
        target_node: "strom-node-1".to_string(),
        target_network: "docker-host".to_string(),
        target_latency_ms: 200,
        northbound_url: "http://north".to_string(),
        northbound_token: None,
        southbound_url: "http://south".to_string(),
        southbound_token: None,
        open_live_url: "http://live".to_string(),
        open_live_api_key: None,
    })
    .unwrap()
}

fn seat(id: &str) -> Seat {
    Seat {
        seat: id.to_string(),
        display_name: id.to_string(),
        token: "token".to_string(),
        created_at: NOW - 10,
        expires_at: NOW + 3600,
        revoked: false,
        joined_at: None,
    }
}

fn joined(id: &str) -> Seat {
    Seat { joined_at: Some(NOW - 5), ..seat(id) }
}

fn findings(nodes: &[(&str, NodeStatus)], declared: &[&str]) -> Findings {
    Findings {
        nodes: Ok(nodes.iter().map(|(id, status)| (id.to_string(), *status)).collect()),
        declared: Ok(declared.iter().map(|name| name.to_string()).collect()),
        status: Ok(StatusRollup::default()),
        sources: None,
    }
}

fn told(plan: &[Action]) -> Vec<String> {
    plan.iter()
        .map(|action| match action {
            Action::Declare(stream) => format!("declare {}", stream.name),
            Action::Withdraw(seat) => format!("withdraw {seat}"),
            Action::Join { seat, at } => format!("join {seat} {at}"),
            Action::Forget(seat) => format!("forget {seat}"),
        })
        .collect()
}

fn planned(seats: Vec<Seat>, findings: Findings) -> Vec<String> {
    told(&tick(&seats, findings, &config(), NOW).plan)
}

#[test]
fn a_guest_who_joins_is_given_a_stream() {
    for status in [NodeStatus::Ready, NodeStatus::Degraded] {
        assert_eq!(
            planned(vec![seat("a")], findings(&[("a", status)], &[])),
            ["declare a".to_string(), format!("join a {NOW}")]
        );
    }
    let ticked = tick(
        &vec![seat("a")],
        findings(&[("a", NodeStatus::Ready)], &[]),
        &config(),
        NOW,
    );
    let Action::Declare(stream) = &ticked.plan[0] else {
        panic!("the stream is declared first");
    };
    assert!(stream.enabled);
    assert!(matches!(
        &stream.source,
        StreamTransport::Device { node, network: None } if node == "a"
    ));
    assert!(matches!(
        &stream.destinations[..],
        [StreamTransport::Srt { node, network: Some(network), latency: 200 }]
            if node == "strom-node-1" && network == "docker-host"
    ));
}

#[test]
fn a_guest_who_is_away_is_given_none() {
    for nodes in [
        vec![],
        vec![("a", NodeStatus::Offline)],
        vec![("a", NodeStatus::Unknown)],
        vec![("b", NodeStatus::Ready)],
    ] {
        assert!(planned(vec![seat("a")], findings(&nodes, &[])).is_empty());
    }
}

#[test]
fn a_declared_stream_is_not_declared_again() {
    assert!(planned(
        vec![joined("a")],
        findings(&[("a", NodeStatus::Ready)], &["a", "other"])
    )
    .is_empty());
}

#[test]
fn a_reloading_guest_keeps_the_stream() {
    for nodes in [vec![], vec![("a", NodeStatus::Offline)]] {
        assert!(planned(vec![joined("a")], findings(&nodes, &["a"])).is_empty());
    }
}

#[test]
fn an_expired_seat_loses_its_stream_and_stays() {
    let expired = Seat { expires_at: NOW, ..joined("a") };
    assert_eq!(
        planned(vec![expired.clone()], findings(&[("a", NodeStatus::Ready)], &["a"])),
        ["withdraw a"]
    );
    assert!(planned(vec![expired], findings(&[("a", NodeStatus::Ready)], &[])).is_empty());
    let not_yet = Seat { expires_at: NOW + 1, ..joined("a") };
    assert!(planned(vec![not_yet], findings(&[("a", NodeStatus::Ready)], &["a"])).is_empty());
}

#[test]
fn a_revoked_seat_is_forgotten_once_its_stream_is_gone() {
    let revoked = Seat { revoked: true, ..joined("a") };
    assert_eq!(
        planned(vec![revoked.clone()], findings(&[("a", NodeStatus::Ready)], &["a"])),
        ["withdraw a"]
    );
    assert_eq!(
        planned(vec![revoked], findings(&[("a", NodeStatus::Ready)], &["b"])),
        ["forget a"]
    );
}

#[test]
fn a_revoked_guest_who_turns_up_is_noted_and_forgotten() {
    let revoked = Seat { revoked: true, ..seat("a") };
    assert_eq!(
        planned(vec![revoked], findings(&[("a", NodeStatus::Ready)], &[])),
        [format!("join a {NOW}"), "forget a".to_string()]
    );
}

#[test]
fn seats_are_seen_to_in_their_order() {
    let seats = vec![
        seat("c"),
        Seat { revoked: true, ..joined("a") },
        Seat { revoked: true, ..joined("d") },
        joined("b"),
    ];
    let found = findings(
        &[("b", NodeStatus::Degraded), ("c", NodeStatus::Ready)],
        &["a", "stranger"],
    );
    assert_eq!(
        planned(seats, found),
        [
            "declare c".to_string(),
            format!("join c {NOW}"),
            "withdraw a".to_string(),
            "forget d".to_string(),
            "declare b".to_string(),
        ]
    );
}

#[test]
fn nothing_is_changed_unless_weave_answers_both_questions() {
    let seats = || vec![seat("a"), Seat { revoked: true, ..joined("b") }];
    let mut silent = findings(&[("a", NodeStatus::Ready)], &["b"]);
    silent.nodes = Err("no nodes".to_string());
    assert!(planned(seats(), silent).is_empty());
    let mut silent = findings(&[("a", NodeStatus::Ready)], &["b"]);
    silent.declared = Err("no streams".to_string());
    assert!(planned(seats(), silent).is_empty());
    // The status rollup and open-live are not needed for it.
    let mut partial = findings(&[("a", NodeStatus::Ready)], &["b"]);
    partial.status = Err("no status".to_string());
    partial.sources = Some(Err("no sources".to_string()));
    assert_eq!(
        planned(seats(), partial),
        ["declare a".to_string(), format!("join a {NOW}"), "withdraw b".to_string()]
    );
}

fn source(id: &str, external_id: Option<&str>) -> Source {
    Source {
        id: id.to_string(),
        status: Some("active".to_string()),
        provider: external_id.map(|external_id| Provider {
            id: "weave".to_string(),
            external_id: external_id.to_string(),
        }),
    }
}

fn stream(name: &str, status: &str) -> StreamStatus {
    StreamStatus {
        name: name.to_string(),
        status: status.to_string(),
        reason: None,
        endpoints: None,
    }
}

#[test]
fn findings_are_sorted_by_seat() {
    let facts = observe(Findings {
        nodes: Ok(vec![
            ("a".to_string(), NodeStatus::Ready),
            ("b".to_string(), NodeStatus::Unknown),
            ("a".to_string(), NodeStatus::Offline),
        ]),
        declared: Ok(vec!["a".to_string()]),
        status: Ok(StatusRollup {
            streams: vec![stream("a", "pending"), stream("a", "flowing"), stream("c", "failed")],
        }),
        sources: Some(Ok(vec![
            source("first", Some("a/0")),
            source("second", Some("a/1")),
            source("stranger", None),
        ])),
    });
    let nodes = facts.nodes.unwrap();
    assert_eq!(nodes.len(), 2);
    assert_eq!(nodes.get("a").unwrap().status, NodeStatus::Offline);
    assert_eq!(facts.declared.unwrap(), ["a"]);
    assert_eq!(facts.streams.len(), 2);
    assert_eq!(facts.streams.get("a").unwrap().status, "flowing");
    assert_eq!(facts.sources.len(), 1);
    assert_eq!(facts.sources.get("a").unwrap().id, "second");
    assert!(facts.errors.is_empty());
}

#[test]
fn errors_are_kept_in_the_order_of_the_questions() {
    let facts = observe(Findings {
        nodes: Err("nodes".to_string()),
        declared: Err("streams".to_string()),
        status: Err("status".to_string()),
        sources: Some(Err("sources".to_string())),
    });
    assert!(facts.nodes.is_none());
    assert!(facts.declared.is_none());
    assert_eq!(facts.streams.len(), 0);
    assert_eq!(facts.sources.len(), 0);
    assert_eq!(facts.errors, ["nodes", "streams", "status", "sources"]);
}

fn sending() -> Vec<HopStatus> {
    vec![HopStatus {
        id: "x-sender".to_string(),
        state: HopState::Other,
        egress: LinkCondition::Flowing,
        rate: None,
    }]
}

#[test]
fn a_tick_leaves_what_it_knew() {
    let mut snapshot = Snapshot::default();
    snapshot.streams.insert("old".to_string(), stream("old", "flowing"));
    snapshot.errors.push("old".to_string());
    let mut found = findings(&[("a", NodeStatus::Ready)], &[]);
    found.status = Ok(StatusRollup { streams: vec![stream("a", "pending")] });
    found.sources = Some(Err("sources".to_string()));
    let seats = vec![joined("a")];
    let facts = observe(found);
    conclude(&mut snapshot, facts, &seats, vec!["refused".to_string()], NOW);
    assert_eq!(snapshot.reconciled_at, "2025-09-04T15:33:20Z");
    assert_eq!(snapshot.nodes.get("a").unwrap().status, NodeStatus::Ready);
    assert_eq!(snapshot.streams.len(), 1);
    assert_eq!(snapshot.streams.get("a").unwrap().status, "pending");
    assert_eq!(snapshot.sources.len(), 0);
    assert_eq!(snapshot.errors, ["sources", "refused"]);
}

#[test]
fn a_guest_who_has_left_is_not_reported_as_sending() {
    let mut snapshot = Snapshot::default();
    for id in ["here", "gone", "stranger", "unknown"] {
        snapshot.reported.insert(id.to_string(), sending());
    }
    let found = findings(
        &[
            ("here", NodeStatus::Degraded),
            ("gone", NodeStatus::Offline),
            ("stranger", NodeStatus::Ready),
        ],
        &[],
    );
    let seats = vec![joined("here"), joined("gone"), joined("unknown")];
    conclude(&mut snapshot, observe(found), &seats, Vec::new(), NOW);
    assert_eq!(snapshot.reported.len(), 1);
    assert!(snapshot.reported.contains("here"));
    let view = SeatView::build(&joined("gone"), &snapshot, &config(), NOW);
    assert_eq!(view.stage, "left");
    assert_eq!(view.chain[3].state, State::Pending);
}

#[test]
fn a_silent_southbound_leaves_no_reports() {
    let mut snapshot = Snapshot::default();
    snapshot.reported.insert("a".to_string(), sending());
    let mut found = findings(&[], &[]);
    found.nodes = Err("down".to_string());
    conclude(&mut snapshot, observe(found), &vec![joined("a")], Vec::new(), NOW);
    assert_eq!(snapshot.reported.len(), 0);
    assert_eq!(snapshot.nodes.len(), 0);
    assert_eq!(snapshot.errors, ["down"]);
}

#[test]
fn a_guest_is_noted_as_seen() {
    let mut store = SeatStore::load(vec![("a".to_string(), seat("a"))]);
    assert!(mark_joined(&mut store, "a", NOW));
    assert_eq!(store.get("a").unwrap().joined_at, Some(NOW));
    assert!(!mark_joined(&mut store, "b", NOW));
    assert!(store.get("b").is_none());
}

/// Carries a plan out on a store and on the streams that weave holds.
fn carry_out(plan: Vec<Action>, store: &mut SeatStore, held: &mut Vec<String>) {
    for action in plan {
        match action {
            Action::Declare(stream) => held.push(stream.name),
            Action::Withdraw(seat) => held.retain(|name| *name != seat),
            Action::Join { seat, at } => {
                mark_joined(store, &seat, at);
            }
            Action::Forget(seat) => {
                store.remove(&seat);
            }
        }
    }
}

#[test]
fn two_ticks_leave_nothing_to_do() {
    let mut store = SeatStore::load(vec![
        ("fresh".to_string(), seat("fresh")),
        ("away".to_string(), seat("away")),
        ("over".to_string(), Seat { expires_at: NOW, ..joined("over") }),
        ("revoked".to_string(), Seat { revoked: true, ..joined("revoked") }),
        ("reloading".to_string(), joined("reloading")),
    ]);
    let mut held: Vec<String> = ["over", "revoked", "reloading", "stranger"]
        .iter()
        .map(|name| name.to_string())
        .collect();
    let nodes = [("fresh", NodeStatus::Ready), ("stranger", NodeStatus::Ready)];
    for round in 0..3 {
        let names: Vec<&str> = held.iter().map(String::as_str).collect();
        let facts = observe(findings(&nodes, &names));
        let due = plan(&store.list(), &facts, &config(), NOW);
        assert_eq!(due.is_empty(), round == 2, "round {round}: {:?}", told(&due));
        carry_out(due, &mut store, &mut held);
    }
    held.sort();
    assert_eq!(held, ["fresh", "reloading", "stranger"]);
    assert!(store.get("revoked").is_none());
    assert!(store.get("over").is_some());
    assert_eq!(store.get("fresh").unwrap().joined_at, Some(NOW));
}
