//! The five steps of a seat, and the stage it is in.
use greenroom::config::{Args, Config};
use greenroom::live::Source;
use greenroom::seat::Seat;
use greenroom::snapshot::{NodeFacts, SeatView, Snapshot, State, Step};
use greenroom::weave::{
    EndpointAddr, HopState, HopStatus, LinkCondition, NodeStatus, StreamEndpoints, StreamStatus,
};

const NOW: i64 = 1_757_000_000;

fn config(open_live_url: &str) -> Config {
    Config::from_args(Args {
        public_url: "http://localhost:8090".to_string(),
        signing_key: Some("test-key".to_string()),
        webhook_token: Some("hook".to_string()),
        auth_disabled: None,
        reconcile_secs: 3,
        invite_ttl_secs: 3600,
        target_node: "strom-node-1".to_string(),
        target_network: "docker-host".to_string(),
        target_latency_ms: 200,
        northbound_url: "http://north".to_string(),
        northbound_token: None,
        southbound_url: "http://south".to_string(),
        southbound_token: None,
        open_live_url: open_live_url.to_string(),
        open_live_api_key: None,
    })
    .unwrap()
}

fn seat() -> Seat {
    Seat {
        seat: "alice-1f2e".to_string(),
        display_name: "Alice".to_string(),
        token: "token".to_string(),
        created_at: NOW,
        expires_at: NOW + 3600,
        revoked: false,
        joined_at: None,
    }
}

fn node(snapshot: &mut Snapshot, status: NodeStatus) {
    snapshot.nodes.insert("alice-1f2e".to_string(), NodeFacts { status });
}

fn stream(snapshot: &mut Snapshot, status: &str, reason: Option<&str>, url: Option<&str>) {
    snapshot.streams.insert(
        "alice-1f2e".to_string(),
        StreamStatus {
            name: "alice-1f2e".to_string(),
            status: status.to_string(),
            reason: reason.map(str::to_string),
            endpoints: url.map(|url| StreamEndpoints {
                outputs: vec![Some(EndpointAddr { node: "n".to_string(), url: url.to_string() })],
            }),
        },
    );
}

fn hop(id: &str, state: HopState, egress: LinkCondition, rate: Option<&str>) -> HopStatus {
    HopStatus { id: id.to_string(), state, egress, rate: rate.map(str::to_string) }
}

fn report(snapshot: &mut Snapshot, hops: Vec<HopStatus>) {
    snapshot.reported.insert("alice-1f2e".to_string(), hops);
}

fn sender(egress: LinkCondition, rate: Option<&str>) -> Vec<HopStatus> {
    vec![hop("alice-1f2e-sender", HopState::Other, egress, rate)]
}

fn source(snapshot: &mut Snapshot, status: Option<&str>) {
    snapshot.sources.insert(
        "alice-1f2e".to_string(),
        Source {
            id: "src-ext-weave-alice-1f2e-0".to_string(),
            status: status.map(str::to_string),
            provider: None,
        },
    );
}

fn view(seat: &Seat, snapshot: &Snapshot, now: i64) -> SeatView {
    SeatView::build(seat, snapshot, &config("http://live"), now)
}

fn reads(step: &Step, name: &str, state: State, detail: Option<&str>) {
    assert_eq!(step.step, name);
    assert_eq!(step.state, state);
    assert_eq!(step.detail.as_deref(), detail);
}

#[test]
fn a_fresh_seat_waits_for_its_guest() {
    let view = view(&seat(), &Snapshot::default(), NOW);
    assert_eq!(view.seat, "alice-1f2e");
    assert_eq!(view.display_name, "Alice");
    assert_eq!(view.join_url, "http://localhost:8090/j/token");
    assert_eq!(view.created_at, "2025-09-04T15:33:20Z");
    assert_eq!(view.expires_at, "2025-09-04T16:33:20Z");
    assert_eq!(view.stage, "invited");
    assert_eq!(view.chain.len(), 5);
    reads(&view.chain[0], "invited", State::Done, Some("link created"));
    reads(
        &view.chain[1],
        "joined",
        State::Pending,
        Some("waiting for the guest to open the link"),
    );
    reads(&view.chain[2], "routed", State::Pending, None);
    reads(&view.chain[3], "flowing", State::Pending, None);
    reads(
        &view.chain[4],
        "open-live",
        State::Pending,
        Some("open-live has not discovered the stream yet"),
    );
}

#[test]
fn an_unused_link_expires() {
    let view = view(&seat(), &Snapshot::default(), NOW + 3600);
    assert_eq!(view.stage, "expired");
    reads(&view.chain[0], "invited", State::Done, Some("link expired unused"));
    reads(&view.chain[1], "joined", State::Pending, Some("never opened"));
}

#[test]
fn a_used_link_does_not_read_as_expired() {
    let mut seat = seat();
    seat.joined_at = Some(NOW + 1);
    let mut snapshot = Snapshot::default();
    node(&mut snapshot, NodeStatus::Ready);
    let view = view(&seat, &snapshot, NOW + 3600);
    assert_eq!(view.stage, "joined");
    reads(&view.chain[0], "invited", State::Done, Some("link created"));
}

#[test]
fn a_revoked_seat_reads_as_revoked_whatever_else() {
    let mut seat = seat();
    seat.revoked = true;
    let mut snapshot = Snapshot::default();
    node(&mut snapshot, NodeStatus::Ready);
    stream(&mut snapshot, "flowing", None, None);
    let view = view(&seat, &snapshot, NOW + 7200);
    assert_eq!(view.stage, "revoked");
    reads(&view.chain[0], "invited", State::Done, Some("link revoked"));
}

#[test]
fn a_heartbeating_node_has_joined() {
    for status in [NodeStatus::Ready, NodeStatus::Degraded] {
        let mut snapshot = Snapshot::default();
        node(&mut snapshot, status);
        let view = view(&seat(), &snapshot, NOW);
        assert_eq!(view.stage, "joined");
        reads(&view.chain[1], "joined", State::Done, Some("browser node registered"));
    }
}

#[test]
fn a_node_that_stops_has_left() {
    let mut snapshot = Snapshot::default();
    node(&mut snapshot, NodeStatus::Offline);
    let stopped = view(&seat(), &snapshot, NOW);
    assert_eq!(stopped.stage, "left");
    reads(
        &stopped.chain[1],
        "joined",
        State::Failed,
        Some("browser node stopped heartbeating"),
    );

    let mut seen = seat();
    seen.joined_at = Some(NOW);
    let mut unknown = Snapshot::default();
    node(&mut unknown, NodeStatus::Unknown);
    for snapshot in [Snapshot::default(), unknown] {
        let gone = view(&seen, &snapshot, NOW);
        assert_eq!(gone.stage, "left");
        reads(&gone.chain[1], "joined", State::Failed, Some("browser node is gone"));
    }

    let mut unknown = Snapshot::default();
    node(&mut unknown, NodeStatus::Unknown);
    assert_eq!(view(&seat(), &unknown, NOW).stage, "invited");
}

#[test]
fn a_placed_stream_is_routed() {
    let mut snapshot = Snapshot::default();
    stream(&mut snapshot, "ready", None, Some("srt://gateway:9000"));
    let with_output = view(&seat(), &snapshot, NOW);
    assert_eq!(with_output.stage, "routed");
    reads(
        &with_output.chain[2],
        "routed",
        State::Done,
        Some("WHIP into strom-node-1, out as srt://gateway:9000"),
    );
    stream(&mut snapshot, "ready", None, None);
    reads(
        &view(&seat(), &snapshot, NOW).chain[2],
        "routed",
        State::Done,
        Some("WHIP into strom-node-1"),
    );
}

#[test]
fn a_stream_being_placed_is_active() {
    let mut snapshot = Snapshot::default();
    stream(&mut snapshot, "pending", Some(" no gateway "), None);
    reads(&view(&seat(), &snapshot, NOW).chain[2], "routed", State::Active, Some("no gateway"));
    stream(&mut snapshot, "pending", Some(" "), None);
    reads(
        &view(&seat(), &snapshot, NOW).chain[2],
        "routed",
        State::Active,
        Some("weave is placing the stream"),
    );
}

#[test]
fn a_failed_stream_is_not_routed() {
    let mut snapshot = Snapshot::default();
    stream(&mut snapshot, "failed", Some("no path"), None);
    reads(&view(&seat(), &snapshot, NOW).chain[2], "routed", State::Failed, Some("no path"));
    stream(&mut snapshot, "failed", None, None);
    reads(&view(&seat(), &snapshot, NOW).chain[2], "routed", State::Failed, None);
}

#[test]
fn a_failed_sender_is_not_routed() {
    let mut snapshot = Snapshot::default();
    stream(&mut snapshot, "ready", None, None);
    report(
        &mut snapshot,
        vec![hop("alice-1f2e-sender", HopState::Failed, LinkCondition::Other, None)],
    );
    reads(
        &view(&seat(), &snapshot, NOW).chain[2],
        "routed",
        State::Failed,
        Some("the browser could not open the WHIP session"),
    );
    // Another hop's failure is not the sender's.
    report(
        &mut snapshot,
        vec![hop("alice-1f2e-sender-2", HopState::Failed, LinkCondition::Other, None)],
    );
    assert_eq!(view(&seat(), &snapshot, NOW).chain[2].state, State::Done);
    // The first sender is the one that counts.
    report(
        &mut snapshot,
        vec![
            hop("receiver", HopState::Failed, LinkCondition::Other, None),
            hop("-sender", HopState::Other, LinkCondition::Other, None),
            hop("b-sender", HopState::Failed, LinkCondition::Other, None),
        ],
    );
    assert_eq!(view(&seat(), &snapshot, NOW).chain[2].state, State::Done);
}

#[test]
fn a_flowing_stream_shows_the_browsers_rate() {
    let mut snapshot = Snapshot::default();
    stream(&mut snapshot, "flowing", None, None);
    let bare = view(&seat(), &snapshot, NOW);
    assert_eq!(bare.stage, "flowing");
    reads(&bare.chain[3], "flowing", State::Done, Some("media is moving"));
    report(&mut snapshot, sender(LinkCondition::Flowing, Some("2.50")));
    reads(
        &view(&seat(), &snapshot, NOW).chain[3],
        "flowing",
        State::Done,
        Some("2.50 Mb/s from the browser"),
    );
}

#[test]
fn a_degraded_stream_depends_on_the_browser() {
    let mut snapshot = Snapshot::default();
    stream(&mut snapshot, "degraded", Some("loss"), None);
    reads(&view(&seat(), &snapshot, NOW).chain[3], "flowing", State::Failed, Some("loss"));
    for egress in [LinkCondition::Flowing, LinkCondition::Connected] {
        report(&mut snapshot, sender(egress, Some("1.00")));
        reads(&view(&seat(), &snapshot, NOW).chain[3], "flowing", State::Active, Some("loss"));
    }
    stream(&mut snapshot, "degraded", None, None);
    reads(
        &view(&seat(), &snapshot, NOW).chain[3],
        "flowing",
        State::Active,
        Some("1.00 Mb/s from the browser"),
    );
    report(&mut snapshot, sender(LinkCondition::Other, Some("1.00")));
    reads(&view(&seat(), &snapshot, NOW).chain[3], "flowing", State::Failed, None);
}

#[test]
fn a_stream_without_a_consumer_is_no_fault() {
    let mut snapshot = Snapshot::default();
    stream(&mut snapshot, "awaiting_input", None, None);
    reads(
        &view(&seat(), &snapshot, NOW).chain[3],
        "flowing",
        State::Pending,
        Some("waiting for the browser to send"),
    );
    for egress in [LinkCondition::Flowing, LinkCondition::Connected] {
        report(&mut snapshot, sender(egress, Some("1.50")));
        reads(
            &view(&seat(), &snapshot, NOW).chain[3],
            "flowing",
            State::Active,
            Some("1.50 Mb/s from the browser"),
        );
        report(&mut snapshot, sender(egress, None));
        reads(
            &view(&seat(), &snapshot, NOW).chain[3],
            "flowing",
            State::Active,
            Some("browser is sending; the gateway has no consumer yet"),
        );
    }
}

#[test]
fn a_sending_browser_is_active_before_there_is_a_stream() {
    let mut snapshot = Snapshot::default();
    report(&mut snapshot, sender(LinkCondition::Flowing, Some("0.75")));
    reads(
        &view(&seat(), &snapshot, NOW).chain[3],
        "flowing",
        State::Active,
        Some("0.75 Mb/s from the browser"),
    );
    stream(&mut snapshot, "ready", None, None);
    report(&mut snapshot, sender(LinkCondition::Connected, None));
    reads(&view(&seat(), &snapshot, NOW).chain[3], "flowing", State::Active, None);
}

#[test]
fn a_source_that_was_created_has_landed() {
    let mut snapshot = Snapshot::default();
    source(&mut snapshot, Some("active"));
    let landed = view(&seat(), &snapshot, NOW);
    assert_eq!(landed.stage, "open-live");
    reads(
        &landed.chain[4],
        "open-live",
        State::Done,
        Some("source src-ext-weave-alice-1f2e-0 is active"),
    );
    source(&mut snapshot, Some("inactive"));
    reads(
        &view(&seat(), &snapshot, NOW).chain[4],
        "open-live",
        State::Done,
        Some("source src-ext-weave-alice-1f2e-0 is inactive"),
    );
    source(&mut snapshot, None);
    reads(
        &view(&seat(), &snapshot, NOW).chain[4],
        "open-live",
        State::Done,
        Some("source src-ext-weave-alice-1f2e-0 is unknown"),
    );
    assert_eq!(view(&seat(), &snapshot, NOW).stage, "open-live");
}

#[test]
fn open_live_need_not_be_watched() {
    let mut snapshot = Snapshot::default();
    source(&mut snapshot, Some("active"));
    let view = SeatView::build(&seat(), &snapshot, &config(""), NOW);
    reads(
        &view.chain[4],
        "open-live",
        State::Pending,
        Some("open-live is not being watched"),
    );
    assert_eq!(view.stage, "invited");
}

#[test]
fn the_stage_is_the_furthest_step() {
    let mut snapshot = Snapshot::default();
    node(&mut snapshot, NodeStatus::Ready);
    assert_eq!(view(&seat(), &snapshot, NOW).stage, "joined");
    stream(&mut snapshot, "ready", None, None);
    assert_eq!(view(&seat(), &snapshot, NOW).stage, "routed");
    source(&mut snapshot, Some("active"));
    assert_eq!(view(&seat(), &snapshot, NOW).stage, "open-live");
    stream(&mut snapshot, "flowing", None, None);
    assert_eq!(view(&seat(), &snapshot, NOW).stage, "flowing");
    node(&mut snapshot, NodeStatus::Offline);
    assert_eq!(view(&seat(), &snapshot, NOW).stage, "left");
}
