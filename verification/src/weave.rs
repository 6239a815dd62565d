//! What is asked of weave, northbound and southbound, and what its answers mean.
use vstd::prelude::*;
use vstd::string::StringExecFns;

use crate::text::{joined, text_of, trim, trimmed};

verus! {

/// The prefix of every weave path.
pub const API_V1: &'static str = "/v1";

#[derive(Debug, Clone, Copy, PartialEq, Eq, Structural)]
pub enum Method {
    Get,
    Post,
    Delete,
}

/// A request, but for its body.
#[derive(Debug)]
pub struct Call {
    pub method: Method,
    pub url: String,
    pub bearer: Option<String>,
}

/// A request as mathematics.
pub struct CallModel {
    pub method: Method,
    pub url: Seq<char>,
    pub bearer: Option<Seq<char>>,
}

impl View for Call {
    type V = CallModel;

    open spec fn view(&self) -> CallModel {
        CallModel { method: self.method, url: self.url@, bearer: text_of(self.bearer) }
    }
}

/// What weave knows of a node's health.
#[derive(Debug, Clone, Copy, PartialEq, Eq, Structural)]
pub enum NodeStatus {
    Ready,
    Degraded,
    Offline,
    Unknown,
}

impl NodeStatus {
    /// Whether the node is heartbeating.
    pub open spec fn is_online(self) -> bool {
        self == NodeStatus::Ready || self == NodeStatus::Degraded
    }

    pub fn online(&self) -> (r: bool)
        ensures
            r == self.is_online(),
    {
        matches!(self, NodeStatus::Ready | NodeStatus::Degraded)
    }
}

/// Whether a hop has failed.
#[derive(Debug, Clone, Copy, PartialEq, Eq, Structural)]
pub enum HopState {
    Failed,
    Other,
}

/// How a hop's link is doing.
#[derive(Debug, Clone, Copy, PartialEq, Eq, Structural)]
pub enum LinkCondition {
    Flowing,
    Connected,
    Other,
}

/// What a page reports of one of its hops.
#[derive(Debug, Clone)]
pub struct HopStatus {
    pub id: String,
    pub state: HopState,
    pub egress: LinkCondition,
    /// The outbound rate in Mb/s with two decimals, where one is reported and positive.
    pub rate: Option<String>,
}

#[derive(Debug, Clone, Copy, PartialEq, Eq, Structural)]
pub enum Transport {
    Whip,
}

#[derive(Debug, Clone, Copy, PartialEq, Eq, Structural)]
pub enum SocketRole {
    Connect,
}

#[derive(Debug, Clone, Copy, PartialEq, Eq, Structural)]
pub enum DeviceKind {
    Capture,
}

#[derive(Debug, Clone, Copy, PartialEq, Eq, Structural)]
pub enum Reachability {
    OutboundOnly,
}

/// What a node says of itself when it registers. The one data-plane address stands under weave's
/// default alias.
#[derive(Debug)]
pub struct NodeDescriptor {
    pub id: String,
    pub endpoint: String,
    pub status: NodeStatus,
    pub transports: Vec<(Transport, SocketRole)>,
    pub devices: Vec<DeviceKind>,
    pub host: String,
    pub reachability: Reachability,
}

/// A node's description as mathematics.
pub struct NodeModel {
    pub id: Seq<char>,
    pub endpoint: Seq<char>,
    pub status: NodeStatus,
    pub transports: Seq<(Transport, SocketRole)>,
    pub devices: Seq<DeviceKind>,
    pub host: Seq<char>,
    pub reachability: Reachability,
}

impl View for NodeDescriptor {
    type V = NodeModel;

    open spec fn view(&self) -> NodeModel {
        NodeModel {
            id: self.id@,
            endpoint: self.endpoint@,
            status: self.status,
            transports: self.transports@,
            devices: self.devices@,
            host: self.host@,
            reachability: self.reachability,
        }
    }
}

/// The node that a guest's page is: it sends its camera over WHIP, connecting outwards, and
/// nothing else.
pub open spec fn browser_node(seat: Seq<char>) -> NodeModel {
    NodeModel {
        id: seat,
        endpoint: "browser://"@ + seat,
        status: NodeStatus::Ready,
        transports: seq![(Transport::Whip, SocketRole::Connect)],
        devices: seq![DeviceKind::Capture],
        host: "browser"@,
        reachability: Reachability::OutboundOnly,
    }
}

/// A registration, with the page's hop report as it came.
#[derive(Debug)]
pub struct NodeRegistration<H> {
    pub node: NodeDescriptor,
    pub hop_status: Vec<H>,
}

/// A heartbeat, with the page's hop report as it came.
#[derive(Debug)]
pub struct NodeHeartbeat<H> {
    pub node_id: String,
    pub status: NodeStatus,
    pub hop_status: Vec<H>,
}

/// One end of a stream.
#[derive(Debug)]
pub enum StreamTransport {
    Device { node: String, network: Option<String> },
    Srt { node: String, network: Option<String>, latency: u32 },
}

/// One end of a stream as mathematics.
pub enum TransportModel {
    Device { node: Seq<char>, network: Option<Seq<char>> },
    Srt { node: Seq<char>, network: Option<Seq<char>>, latency: u32 },
}

impl View for StreamTransport {
    type V = TransportModel;

    open spec fn view(&self) -> TransportModel {
        match *self {
            StreamTransport::Device { node, network } => TransportModel::Device {
                node: node@,
                network: text_of(network),
            },
            StreamTransport::Srt { node, network, latency } => TransportModel::Srt {
                node: node@,
                network: text_of(network),
                latency,
            },
        }
    }
}

/// A stream that weave is asked to hold.
#[derive(Debug)]
pub struct StreamDefinition {
    pub name: String,
    pub enabled: bool,
    pub source: StreamTransport,
    pub destinations: Vec<StreamTransport>,
}

/// A stream as mathematics.
pub struct StreamModel {
    pub name: Seq<char>,
    pub enabled: bool,
    pub source: TransportModel,
    pub destinations: Seq<TransportModel>,
}

impl View for StreamDefinition {
    type V = StreamModel;

    open spec fn view(&self) -> StreamModel {
        StreamModel {
            name: self.name@,
            enabled: self.enabled,
            source: self.source@,
            destinations: self.destinations@.map_values(|end: StreamTransport| end@),
        }
    }
}

/// A guest's camera into a gateway node, as a stream named after the seat.
pub open spec fn camera_stream(
    seat: Seq<char>,
    target_node: Seq<char>,
    network: Option<Seq<char>>,
    latency_ms: u32,
) -> StreamModel {
    StreamModel {
        name: seat,
        enabled: true,
        source: TransportModel::Device { node: seat, network: None },
        destinations: seq![
            TransportModel::Srt { node: target_node, network, latency: latency_ms },
        ],
    }
}

/// Where weave is reached, and as whom.
#[derive(Debug)]
pub struct Weave {
    northbound: String,
    northbound_token: Option<String>,
    southbound: String,
    southbound_token: Option<String>,
}

/// A weave as mathematics.
pub struct WeaveModel {
    pub northbound: Seq<char>,
    pub northbound_token: Option<Seq<char>>,
    pub southbound: Seq<char>,
    pub southbound_token: Option<Seq<char>>,
}

impl WeaveModel {
    /// A request to the side that operators use, under the operator's token.
    pub open spec fn northbound_call(self, method: Method, path: Seq<char>) -> CallModel {
        CallModel { method, url: self.northbound + API_V1@ + path, bearer: self.northbound_token }
    }

    /// A request to the side that nodes use, under the nodes' token.
    pub open spec fn southbound_call(self, method: Method, path: Seq<char>) -> CallModel {
        CallModel { method, url: self.southbound + API_V1@ + path, bearer: self.southbound_token }
    }
}

impl View for Weave {
    type V = WeaveModel;

    closed spec fn view(&self) -> WeaveModel {
        WeaveModel {
            northbound: self.northbound@,
            northbound_token: text_of(self.northbound_token),
            southbound: self.southbound@,
            southbound_token: text_of(self.southbound_token),
        }
    }
}

pub(crate) fn copied(value: &Option<String>) -> (r: Option<String>)
    ensures
        text_of(r) == text_of(*value),
{
    match value {
        Some(text) => Some(text.clone()),
        None => None,
    }
}

/// An optional text by reference, as mathematics.
pub open spec fn str_of(value: Option<&str>) -> Option<Seq<char>> {
    match value {
        Some(text) => Some(text@),
        None => None,
    }
}

impl Weave {
    pub fn new(
        northbound: String,
        northbound_token: Option<String>,
        southbound: String,
        southbound_token: Option<String>,
    ) -> (r: Self)
        ensures
            r@ == (WeaveModel {
                northbound: northbound@,
                northbound_token: text_of(northbound_token),
                southbound: southbound@,
                southbound_token: text_of(southbound_token),
            }),
    {
        Weave { northbound, northbound_token, southbound, southbound_token }
    }

    /// The page reports how its hops are doing; everything else about the node
    /// is decided here. A browser sends its camera over WHIP and nothing else,
    /// so those are the only capabilities claimed, and the seat is pinned so a
    /// guest cannot register as somebody else's node.
    pub fn register<H>(&self, seat: &str, hop_status: Vec<H>) -> (r: (Call, NodeRegistration<H>))
        ensures
            r.0@ == self@.southbound_call(Method::Post, "/nodes/register"@),
            r.1.node@ == browser_node(seat@),
            r.1.hop_status@ == hop_status@,
    {
        let node = NodeDescriptor {
            id: seat.to_owned(),
            endpoint: joined("browser://", seat),
            status: NodeStatus::Ready,
            transports: vec![(Transport::Whip, SocketRole::Connect)],
            devices: vec![DeviceKind::Capture],
            host: "browser".to_owned(),
            reachability: Reachability::OutboundOnly,
        };
        assert(node@.transports =~= browser_node(seat@).transports);
        assert(node@.devices =~= browser_node(seat@).devices);
        (
            self.southbound_call(Method::Post, "/nodes/register"),
            NodeRegistration { node, hop_status },
        )
    }

    pub fn heartbeat<H>(&self, seat: &str, hop_status: Vec<H>) -> (r: (Call, NodeHeartbeat<H>))
        ensures
            r.0@ == self@.southbound_call(Method::Post, "/nodes/"@ + seat@ + "/heartbeat"@),
            r.1.node_id@ == seat@,
            r.1.status == NodeStatus::Ready,
            r.1.hop_status@ == hop_status@,
    {
        let path = joined("/nodes/", seat).concat("/heartbeat");
        (
            self.southbound_call(Method::Post, path.as_str()),
            NodeHeartbeat { node_id: seat.to_owned(), status: NodeStatus::Ready, hop_status },
        )
    }

    pub fn desired(&self, seat: &str) -> (r: Call)
        ensures
            r@ == self@.southbound_call(Method::Get, "/nodes/"@ + seat@ + "/desired"@),
    {
        let path = joined("/nodes/", seat).concat("/desired");
        self.southbound_call(Method::Get, path.as_str())
    }

    pub fn nodes(&self) -> (r: Call)
        ensures
            r@ == self@.southbound_call(Method::Get, "/nodes"@),
    {
        self.southbound_call(Method::Get, "/nodes")
    }

    /// The guest's camera into the gateway node, as a stream named after the
    /// seat. `network` picks which of the target node's data-plane addresses
    /// the signalling URL is built from, and so decides whether the guest's
    /// browser can reach it at all.
    pub fn stream_for(
        &self,
        seat: &str,
        target_node: &str,
        network: Option<&str>,
        latency_ms: u32,
    ) -> (r: StreamDefinition)
        ensures
            r@ == camera_stream(seat@, target_node@, str_of(network), latency_ms),
    {
        camera_definition(seat, target_node, network, latency_ms)
    }

    pub fn declare_stream(&self) -> (r: Call)
        ensures
            r@ == self@.northbound_call(Method::Post, "/streams"@),
    {
        self.northbound_call(Method::Post, "/streams")
    }

    pub fn delete_stream(&self, name: &str) -> (r: Call)
        ensures
            r@ == self@.northbound_call(Method::Delete, "/streams/"@ + name@),
    {
        self.northbound_call(Method::Delete, joined("/streams/", name).as_str())
    }

    /// Desired state: every stream weave holds, updated the moment one is
    /// accepted. The status rollup lags it by a controller tick, so asking
    /// that instead makes a fresh stream look absent and get declared again.
    pub fn streams(&self) -> (r: Call)
        ensures
            r@ == self@.northbound_call(Method::Get, "/streams"@),
    {
        self.northbound_call(Method::Get, "/streams")
    }

    pub fn status(&self) -> (r: Call)
        ensures
            r@ == self@.northbound_call(Method::Get, "/status"@),
    {
        self.northbound_call(Method::Get, "/status")
    }

    fn northbound_call(&self, method: Method, path: &str) -> (r: Call)
        ensures
            r@ == self@.northbound_call(method, path@),
    {
        Call {
            method,
            url: joined(self.northbound.as_str(), API_V1).concat(path),
            bearer: copied(&self.northbound_token),
        }
    }

    fn southbound_call(&self, method: Method, path: &str) -> (r: Call)
        ensures
            r@ == self@.southbound_call(method, path@),
    {
        Call {
            method,
            url: joined(self.southbound.as_str(), API_V1).concat(path),
            bearer: copied(&self.southbound_token),
        }
    }
}

pub(crate) fn camera_definition(
    seat: &str,
    target_node: &str,
    network: Option<&str>,
    latency_ms: u32,
) -> (r: StreamDefinition)
    ensures
        r@ == camera_stream(seat@, target_node@, str_of(network), latency_ms),
{
    let network = match network {
        Some(text) => Some(text.to_owned()),
        None => None,
    };
    let r = StreamDefinition {
        name: seat.to_owned(),
        enabled: true,
        source: StreamTransport::Device { node: seat.to_owned(), network: None },
        destinations: vec![
            StreamTransport::Srt { node: target_node.to_owned(), network, latency: latency_ms },
        ],
    };
    assert(r@.destinations =~= seq![
        TransportModel::Srt {
            node: target_node@,
            network: text_of(network),
            latency: latency_ms,
        },
    ]);
    r
}

// What an answer means.

/// A status code with its reason phrase.
pub uninterp spec fn status_text(status: u16) -> Seq<char>;

/// The text of `reqwest::StatusCode`, by `from_u16` and its `Display`: a function of the code,
/// for the codes of three digits, which are those that `from_u16` accepts.
#[verifier::external_body]
fn status_line(status: u16) -> (r: String)
    requires
        100 <= status <= 999,
    ensures
        r@ == status_text(status),
{
    reqwest::StatusCode::from_u16(status).expect("a status of three digits").to_string()
}

pub open spec fn is_success(status: u16) -> bool {
    200 <= status < 300
}

/// Whether a status says that the request succeeded.
pub fn succeeded(status: u16) -> (r: bool)
    ensures
        r == is_success(status),
{
    200 <= status && status < 300
}

/// What is asked of the other systems on every tick.
#[derive(Debug, Clone, Copy, PartialEq, Eq, Structural)]
pub enum Question {
    Nodes,
    Streams,
    Status,
    Sources,
}

impl Question {
    /// What is said where the other side could not be reached.
    pub open spec fn unreachable_text(self) -> Seq<char> {
        match self {
            Question::Nodes => "weave southbound unreachable"@,
            Question::Streams | Question::Status => "weave northbound unreachable"@,
            Question::Sources => "open-live unreachable"@,
        }
    }

    /// What is said where the answer is no success, but for the status.
    pub open spec fn answered_text(self) -> Seq<char> {
        match self {
            Question::Nodes => "weave southbound GET /v1/nodes answered "@,
            Question::Streams => "weave northbound GET /v1/streams answered "@,
            Question::Status => "weave northbound GET /v1/status answered "@,
            Question::Sources => "open-live GET /api/v1/sources answered "@,
        }
    }

    /// What is said where the body could not be read.
    pub open spec fn unreadable_text(self) -> Seq<char> {
        match self {
            Question::Nodes => "reading weave's node list"@,
            Question::Streams => "reading weave's stream list"@,
            Question::Status => "reading weave's status rollup"@,
            Question::Sources => "open-live returned a source list this gateway cannot read"@,
        }
    }

    /// The error of a question that did not arrive, with what is known of the cause.
    pub fn unreachable(&self, cause: &str) -> (r: String)
        ensures
            r@ == self.unreachable_text() + ": "@ + cause@,
    {
        let text: &str = match self {
            Question::Nodes => "weave southbound unreachable",
            Question::Streams | Question::Status => "weave northbound unreachable",
            Question::Sources => "open-live unreachable",
        };
        joined(text, ": ").concat(cause)
    }

    /// Whether a question was answered, by the status.
    pub fn answered(&self, status: u16) -> (r: Result<(), String>)
        requires
            100 <= status <= 999,
        ensures
            match r {
                Ok(()) => is_success(status),
                Err(error) => !is_success(status) && error@ == self.answered_text() + status_text(
                    status,
                ),
            },
    {
        if succeeded(status) {
            return Ok(());
        }
        let text: &str = match self {
            Question::Nodes => "weave southbound GET /v1/nodes answered ",
            Question::Streams => "weave northbound GET /v1/streams answered ",
            Question::Status => "weave northbound GET /v1/status answered ",
            Question::Sources => "open-live GET /api/v1/sources answered ",
        };
        Err(joined(text, status_line(status).as_str()))
    }

    /// The error of an answer that cannot be read, with what is known of the cause.
    pub fn unreadable(&self, cause: &str) -> (r: String)
        ensures
            r@ == self.unreadable_text() + ": "@ + cause@,
    {
        let text: &str = match self {
            Question::Nodes => "reading weave's node list",
            Question::Streams => "reading weave's stream list",
            Question::Status => "reading weave's status rollup",
            Question::Sources => "open-live returned a source list this gateway cannot read",
        };
        joined(text, ": ").concat(cause)
    }
}

/// The error of a change that did not arrive northbound.
pub fn change_unreachable(cause: &str) -> (r: String)
    ensures
        r@ == "weave northbound unreachable: "@ + cause@,
{
    joined("weave northbound unreachable: ", cause)
}

/// The error of a guest's request that did not arrive southbound.
pub fn proxy_unreachable(cause: &str) -> (r: String)
    ensures
        r@ == "weave southbound unreachable: "@ + cause@,
{
    joined("weave southbound unreachable: ", cause)
}

/// The error of an answer to a guest's request that broke off.
pub fn proxy_unreadable(cause: &str) -> (r: String)
    ensures
        r@ == "reading weave's response: "@ + cause@,
{
    joined("reading weave's response: ", cause)
}

/// `<what> <name>: <status> <body>`.
pub open spec fn refusal(what: Seq<char>, name: Seq<char>, status: u16, body: Seq<char>) -> Seq<
    char,
> {
    what + name + ": "@ + status_text(status) + " "@ + trimmed(body)
}

fn refused(what: &str, name: &str, status: u16, body: &str) -> (r: String)
    requires
        100 <= status <= 999,
    ensures
        r@ == refusal(what@, name@, status, body@),
{
    joined(what, name).concat(": ").concat(status_line(status).as_str()).concat(" ").concat(
        trim(body),
    )
}

/// Whether weave took a stream, by its answer.
pub fn declared(name: &str, status: u16, body: &str) -> (r: Result<(), String>)
    requires
        100 <= status <= 999,
    ensures
        match r {
            Ok(()) => is_success(status),
            Err(error) => !is_success(status) && error@ == refusal(
                "weave refused stream "@,
                name@,
                status,
                body@,
            ),
        },
{
    if succeeded(status) {
        Ok(())
    } else {
        Err(refused("weave refused stream ", name, status, body))
    }
}

/// `true` when the stream was there to delete, `false` when it was already
/// gone, which is success for a caller reconciling towards absence.
pub fn deleted(name: &str, status: u16, body: &str) -> (r: Result<bool, String>)
    requires
        100 <= status <= 999,
    ensures
        match r {
            Ok(there) => there == is_success(status) && (there || status == 404),
            Err(error) => !is_success(status) && status != 404 && error@ == refusal(
                "weave refused to delete stream "@,
                name@,
                status,
                body@,
            ),
        },
{
    if status == 404 {
        Ok(false)
    } else if succeeded(status) {
        Ok(true)
    } else {
        Err(refused("weave refused to delete stream ", name, status, body))
    }
}

/// Northbound's status of every stream.
#[derive(Debug)]
pub struct StatusRollup {
    pub streams: Vec<StreamStatus>,
}

impl Default for StatusRollup {
    fn default() -> (r: Self)
        ensures
            r.streams@ == Seq::<StreamStatus>::empty(),
    {
        StatusRollup { streams: Vec::new() }
    }
}

#[derive(Debug, Clone)]
pub struct StreamStatus {
    pub name: String,
    pub status: String,
    pub reason: Option<String>,
    pub endpoints: Option<StreamEndpoints>,
}

#[derive(Debug, Clone)]
pub struct StreamEndpoints {
    pub outputs: Vec<Option<EndpointAddr>>,
}

#[derive(Debug, Clone)]
pub struct EndpointAddr {
    pub node: String,
    pub url: String,
}

/// The first output that stands and names a node.
pub open spec fn first_output(outputs: Seq<Option<EndpointAddr>>) -> Option<EndpointAddr>
    decreases outputs.len(),
{
    if outputs.len() == 0 {
        None
    } else if outputs.first() matches Some(output) && output.node@.len() > 0 {
        outputs.first()
    } else {
        first_output(outputs.drop_first())
    }
}

impl StreamStatus {
    /// The reason without white space around it, where anything is left.
    pub open spec fn shown_reason(self) -> Option<Seq<char>> {
        match self.reason {
            Some(text) => if trimmed(text@).len() > 0 {
                Some(trimmed(text@))
            } else {
                None
            },
            None => None,
        }
    }

    /// The output that a consumer dials.
    pub open spec fn dialled(self) -> Option<EndpointAddr> {
        match self.endpoints {
            Some(endpoints) => first_output(endpoints.outputs@),
            None => None,
        }
    }

    /// Weave leaves this out rather than blank, but a reason that arrived
    /// empty would render as a detail line with nothing in it.
    pub fn reason(&self) -> (r: Option<String>)
        ensures
            text_of(r) == self.shown_reason(),
    {
        match &self.reason {
            Some(text) => {
                let reason = trim(text.as_str());
                if reason.is_empty() {
                    None
                } else {
                    Some(reason.to_owned())
                }
            },
            None => None,
        }
    }

    /// The address an SRT consumer dials, which is what open-live picks up.
    pub fn output(&self) -> (r: Option<&EndpointAddr>)
        ensures
            match r {
                Some(output) => self.dialled() == Some(*output),
                None => self.dialled() is None,
            },
    {
        let Some(endpoints) = &self.endpoints else {
            return None;
        };
        let outputs = &endpoints.outputs;
        assert(outputs@.skip(0) =~= outputs@);
        for i in 0..outputs.len()
            invariant
                self.dialled() == first_output(outputs@.skip(i as int)),
        {
            assert(outputs@.skip(i as int).first() == outputs@[i as int]);
            assert(outputs@.skip(i as int).drop_first() =~= outputs@.skip(i + 1));
            if let Some(output) = &outputs[i] {
                if !output.node.as_str().is_empty() {
                    return Some(output);
                }
            }
        }
        None
    }
}

} // verus!
