//! What is asked of weave and open-live, and what their answers mean.
use greenroom::live::{OpenLive, Provider, Source};
use greenroom::weave::{
    change_unreachable, declared, deleted, proxy_unreachable, proxy_unreadable, succeeded, Call,
    DeviceKind, EndpointAddr, Method, NodeStatus, Question, Reachability, SocketRole, StatusRollup,
    StreamEndpoints, StreamStatus, StreamTransport, Transport, Weave,
};

fn weave() -> Weave {
    Weave::new(
        "http://north".to_string(),
        Some("operator".to_string()),
        "http://south".to_string(),
        None,
    )
}

fn is(call: Call, method: Method, url: &str, bearer: Option<&str>) {
    assert_eq!(call.method, method);
    assert_eq!(call.url, url);
    assert_eq!(call.bearer.as_deref(), bearer);
}

#[test]
fn northbound_calls_bear_the_operators_token() {
    let weave = weave();
    is(weave.declare_stream(), Method::Post, "http://north/v1/streams", Some("operator"));
    is(
        weave.delete_stream("alice-1f2e"),
        Method::Delete,
        "http://north/v1/streams/alice-1f2e",
        Some("operator"),
    );
    is(weave.streams(), Method::Get, "http://north/v1/streams", Some("operator"));
    is(weave.status(), Method::Get, "http://north/v1/status", Some("operator"));
}

#[test]
fn southbound_calls_bear_the_nodes_token() {
    let open = weave();
    is(open.nodes(), Method::Get, "http://south/v1/nodes", None);
    let closed = Weave::new(
        "http://north".to_string(),
        None,
        "http://south".to_string(),
        Some("node".to_string()),
    );
    is(closed.nodes(), Method::Get, "http://south/v1/nodes", Some("node"));
    is(
        closed.desired("alice-1f2e"),
        Method::Get,
        "http://south/v1/nodes/alice-1f2e/desired",
        Some("node"),
    );
    is(closed.status(), Method::Get, "http://north/v1/status", None);
}

#[test]
fn a_page_registers_as_its_seat_and_claims_a_camera_alone() {
    let (call, registration) = weave().register("alice-1f2e", vec![1, 2]);
    is(call, Method::Post, "http://south/v1/nodes/register", None);
    assert_eq!(registration.node.id, "alice-1f2e");
    assert_eq!(registration.node.endpoint, "browser://alice-1f2e");
    assert_eq!(registration.node.status, NodeStatus::Ready);
    assert_eq!(registration.node.transports, [(Transport::Whip, SocketRole::Connect)]);
    assert_eq!(registration.node.devices, [DeviceKind::Capture]);
    assert_eq!(registration.node.host, "browser");
    assert_eq!(registration.node.reachability, Reachability::OutboundOnly);
    assert_eq!(registration.hop_status, [1, 2]);
}

#[test]
fn a_page_heartbeats_as_its_seat() {
    let (call, beat) = weave().heartbeat("alice-1f2e", vec!["hop"]);
    is(call, Method::Post, "http://south/v1/nodes/alice-1f2e/heartbeat", None);
    assert_eq!(beat.node_id, "alice-1f2e");
    assert_eq!(beat.status, NodeStatus::Ready);
    assert_eq!(beat.hop_status, ["hop"]);
}

#[test]
fn a_stream_runs_from_the_seat_to_the_target() {
    let stream = weave().stream_for("alice-1f2e", "strom-node-1", Some("docker-host"), 200);
    assert_eq!(stream.name, "alice-1f2e");
    assert!(stream.enabled);
    assert!(matches!(
        &stream.source,
        StreamTransport::Device { node, network: None } if node == "alice-1f2e"
    ));
    assert_eq!(stream.destinations.len(), 1);
    assert!(matches!(
        &stream.destinations[0],
        StreamTransport::Srt { node, network: Some(network), latency: 200 }
            if node == "strom-node-1" && network == "docker-host"
    ));
    let stream = weave().stream_for("alice-1f2e", "strom-node-1", None, 0);
    assert!(matches!(
        &stream.destinations[0],
        StreamTransport::Srt { network: None, latency: 0, .. }
    ));
}

#[test]
fn heartbeating_nodes_are_online() {
    assert!(NodeStatus::Ready.online());
    assert!(NodeStatus::Degraded.online());
    assert!(!NodeStatus::Offline.online());
    assert!(!NodeStatus::Unknown.online());
}

#[test]
fn questions_are_answered_by_a_success() {
    for status in [200, 204, 299] {
        assert!(succeeded(status));
        assert_eq!(Question::Nodes.answered(status), Ok(()));
    }
    for status in [100, 199, 300, 404, 500, 999] {
        assert!(!succeeded(status));
    }
    assert_eq!(
        Question::Nodes.answered(401),
        Err("weave southbound GET /v1/nodes answered 401 Unauthorized".to_string())
    );
    assert_eq!(
        Question::Streams.answered(503),
        Err("weave northbound GET /v1/streams answered 503 Service Unavailable".to_string())
    );
    assert_eq!(
        Question::Status.answered(199),
        Err("weave northbound GET /v1/status answered 199 <unknown status code>".to_string())
    );
    assert_eq!(
        Question::Sources.answered(404),
        Err("open-live GET /api/v1/sources answered 404 Not Found".to_string())
    );
    assert_eq!(
        Question::Sources.answered(100),
        Err("open-live GET /api/v1/sources answered 100 Continue".to_string())
    );
}

#[test]
fn errors_say_who_failed() {
    assert_eq!(Question::Nodes.unreachable("x"), "weave southbound unreachable: x");
    assert_eq!(Question::Streams.unreachable("x"), "weave northbound unreachable: x");
    assert_eq!(Question::Status.unreachable("x"), "weave northbound unreachable: x");
    assert_eq!(Question::Sources.unreachable("x"), "open-live unreachable: x");
    assert_eq!(Question::Nodes.unreadable("x"), "reading weave's node list: x");
    assert_eq!(Question::Streams.unreadable("x"), "reading weave's stream list: x");
    assert_eq!(Question::Status.unreadable("x"), "reading weave's status rollup: x");
    assert_eq!(
        Question::Sources.unreadable("x"),
        "open-live returned a source list this gateway cannot read: x"
    );
    assert_eq!(change_unreachable("x"), "weave northbound unreachable: x");
    assert_eq!(proxy_unreachable("x"), "weave southbound unreachable: x");
    assert_eq!(proxy_unreadable("x"), "reading weave's response: x");
}

#[test]
fn a_refused_stream_is_told_with_the_body() {
    assert_eq!(declared("alice-1f2e", 201, "ignored"), Ok(()));
    assert_eq!(
        declared("alice-1f2e", 409, "  no such node\n"),
        Err("weave refused stream alice-1f2e: 409 Conflict no such node".to_string())
    );
    assert_eq!(
        declared("alice-1f2e", 404, ""),
        Err("weave refused stream alice-1f2e: 404 Not Found ".to_string())
    );
}

#[test]
fn a_stream_that_is_gone_counts_as_deleted() {
    assert_eq!(deleted("alice-1f2e", 204, ""), Ok(true));
    assert_eq!(deleted("alice-1f2e", 404, "gone"), Ok(false));
    assert_eq!(
        deleted("alice-1f2e", 500, " oops "),
        Err("weave refused to delete stream alice-1f2e: 500 Internal Server Error oops".to_string())
    );
}

fn stream(reason: Option<&str>, outputs: Option<Vec<Option<(&str, &str)>>>) -> StreamStatus {
    StreamStatus {
        name: "alice-1f2e".to_string(),
        status: "routed".to_string(),
        reason: reason.map(str::to_string),
        endpoints: outputs.map(|outputs| StreamEndpoints {
            outputs: outputs
                .into_iter()
                .map(|output| {
                    output.map(|(node, url)| EndpointAddr {
                        node: node.to_string(),
                        url: url.to_string(),
                    })
                })
                .collect(),
        }),
    }
}

#[test]
fn a_blank_reason_is_none() {
    assert_eq!(stream(None, None).reason(), None);
    assert_eq!(stream(Some(""), None).reason(), None);
    assert_eq!(stream(Some(" \u{3000}\n"), None).reason(), None);
    assert_eq!(stream(Some("\tno path "), None).reason().as_deref(), Some("no path"));
    assert_eq!(stream(Some("no  path"), None).reason().as_deref(), Some("no  path"));
}

#[test]
fn the_first_output_with_a_node_is_dialled() {
    assert!(stream(None, None).output().is_none());
    assert!(stream(None, Some(vec![])).output().is_none());
    assert!(stream(None, Some(vec![None, Some(("", "srt://a"))])).output().is_none());
    let found = stream(
        None,
        Some(vec![None, Some(("", "srt://a")), Some(("n", "srt://b")), Some(("m", "srt://c"))]),
    );
    assert_eq!(found.output().unwrap().url, "srt://b");
}

#[test]
fn a_rollup_starts_empty() {
    assert!(StatusRollup::default().streams.is_empty());
}

#[test]
fn open_live_is_asked_for_its_sources() {
    is(
        OpenLive::new("http://live".to_string(), None).sources(),
        Method::Get,
        "http://live/api/v1/sources",
        None,
    );
    is(
        OpenLive::new("http://live".to_string(), Some("key".to_string())).sources(),
        Method::Get,
        "http://live/api/v1/sources",
        Some("key"),
    );
}

fn source(provider: Option<(&str, &str)>) -> Source {
    Source {
        id: "src".to_string(),
        status: None,
        provider: provider.map(|(id, external_id)| Provider {
            id: id.to_string(),
            external_id: external_id.to_string(),
        }),
    }
}

#[test]
fn a_source_of_weaves_shows_a_seat() {
    assert_eq!(source(None).seat(), None);
    assert_eq!(source(Some(("ndi", "alice-1f2e/0"))).seat(), None);
    assert_eq!(source(Some(("weave", "alice-1f2e/0"))).seat(), Some("alice-1f2e"));
    assert_eq!(source(Some(("weave", "alice-1f2e/0/1"))).seat(), Some("alice-1f2e"));
    assert_eq!(source(Some(("weave", "alice-1f2e"))).seat(), Some("alice-1f2e"));
    assert_eq!(source(Some(("weave", "/0"))).seat(), Some(""));
    assert_eq!(source(Some(("weave", ""))).seat(), Some(""));
}
