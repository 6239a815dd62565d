//! The five steps from invited to landed, derived once per tick.
use vstd::prelude::*;
use vstd::string::StringExecFns;

use crate::clock::{rfc3339, shown};
use crate::config::{link, Config, ConfigModel};
use crate::live::Source;
use crate::names::NameMap;
use crate::seat::{Seat, SeatModel};
use crate::text::{ends_with, joined, same, text_of};
use crate::weave::{HopState, HopStatus, LinkCondition, NodeStatus, StreamStatus};

verus! {

/// What the last reconcile found, keyed by seat. Everything the pages show is
/// derived from this and the seat store, so one tick produces one consistent
/// view rather than each request asking three services again.
#[derive(Debug)]
pub struct Snapshot {
    pub reconciled_at: String,
    pub nodes: NameMap<NodeFacts>,
    pub streams: NameMap<StreamStatus>,
    pub sources: NameMap<Source>,
    /// The hop status the guest's own page last reported. The gateway proxies
    /// those calls, so it reads them on the way past: no extra weave call
    /// buys the sender's own view of its camera.
    pub reported: NameMap<Vec<HopStatus>>,
    pub errors: Vec<String>,
}

/// A snapshot as mathematics.
pub struct SnapshotModel {
    pub reconciled_at: Seq<char>,
    pub nodes: Map<Seq<char>, NodeFacts>,
    pub streams: Map<Seq<char>, StreamStatus>,
    pub sources: Map<Seq<char>, Source>,
    pub reported: Map<Seq<char>, Vec<HopStatus>>,
    pub errors: Seq<String>,
}

impl View for Snapshot {
    type V = SnapshotModel;

    open spec fn view(&self) -> SnapshotModel {
        SnapshotModel {
            reconciled_at: self.reconciled_at@,
            nodes: self.nodes@,
            streams: self.streams@,
            sources: self.sources@,
            reported: self.reported@,
            errors: self.errors@,
        }
    }
}

impl Default for Snapshot {
    fn default() -> (r: Self)
        ensures
            r@ == (SnapshotModel {
                reconciled_at: Seq::empty(),
                nodes: Map::empty(),
                streams: Map::empty(),
                sources: Map::empty(),
                reported: Map::empty(),
                errors: Seq::empty(),
            }),
    {
        Snapshot {
            reconciled_at: String::new(),
            nodes: NameMap::new(),
            streams: NameMap::new(),
            sources: NameMap::new(),
            reported: NameMap::new(),
            errors: Vec::new(),
        }
    }
}

#[derive(Debug, Clone, Copy, PartialEq, Eq, Structural)]
pub struct NodeFacts {
    pub status: NodeStatus,
}

#[derive(Debug, Clone, Copy, PartialEq, Eq, Structural)]
pub enum State {
    Pending,
    Active,
    Done,
    Failed,
}

#[derive(Debug, Clone)]
pub struct Step {
    pub step: &'static str,
    pub state: State,
    pub detail: Option<String>,
}

/// A step as mathematics.
pub struct StepModel {
    pub step: Seq<char>,
    pub state: State,
    pub detail: Option<Seq<char>>,
}

impl View for Step {
    type V = StepModel;

    open spec fn view(&self) -> StepModel {
        StepModel { step: self.step@, state: self.state, detail: text_of(self.detail) }
    }
}

#[derive(Debug, Clone)]
pub struct SeatView {
    pub seat: String,
    pub display_name: String,
    pub join_url: String,
    pub created_at: String,
    pub expires_at: String,
    pub stage: &'static str,
    pub chain: Vec<Step>,
}

/// What the pages show of a seat, as mathematics.
pub struct SeatViewModel {
    pub seat: Seq<char>,
    pub display_name: Seq<char>,
    pub join_url: Seq<char>,
    pub created_at: Seq<char>,
    pub expires_at: Seq<char>,
    pub stage: Seq<char>,
    pub chain: Seq<StepModel>,
}

/// The steps of a chain as mathematics.
pub open spec fn steps(chain: Seq<Step>) -> Seq<StepModel> {
    chain.map_values(|step: Step| step@)
}

impl View for SeatView {
    type V = SeatViewModel;

    open spec fn view(&self) -> SeatViewModel {
        SeatViewModel {
            seat: self.seat@,
            display_name: self.display_name@,
            join_url: self.join_url@,
            created_at: self.created_at@,
            expires_at: self.expires_at@,
            stage: self.stage@,
            chain: steps(self.chain@),
        }
    }
}

/// What a map holds under a name.
pub open spec fn found<V>(map: Map<Seq<char>, V>, name: Seq<char>) -> Option<V> {
    if map.contains_key(name) {
        Some(map[name])
    } else {
        None
    }
}

/// The value behind an optional reference.
pub open spec fn behind<V>(value: Option<&V>) -> Option<V> {
    match value {
        Some(value) => Some(*value),
        None => None,
    }
}

/// The first hop whose id says that it is the sender.
pub open spec fn first_sender(hops: Seq<HopStatus>) -> Option<HopStatus>
    decreases hops.len(),
{
    if hops.len() == 0 {
        None
    } else if "-sender"@.is_suffix_of(hops.first().id@) {
        Some(hops.first())
    } else {
        first_sender(hops.drop_first())
    }
}

/// The sender in what a seat's page reported.
pub open spec fn sender_of(snapshot: SnapshotModel, seat: Seq<char>) -> Option<HopStatus> {
    match found(snapshot.reported, seat) {
        Some(hops) => first_sender(hops@),
        None => None,
    }
}

/// Whether the sender's link is up.
pub open spec fn is_sending(sender: Option<HopStatus>) -> bool {
    match sender {
        Some(hop) => hop.egress == LinkCondition::Flowing || hop.egress == LinkCondition::Connected,
        None => false,
    }
}

pub open spec fn is_failing(sender: Option<HopStatus>) -> bool {
    match sender {
        Some(hop) => hop.state == HopState::Failed,
        None => false,
    }
}

/// The sender's own rate, in words.
pub open spec fn rate_of(sender: Option<HopStatus>) -> Option<Seq<char>> {
    match sender {
        Some(hop) => match hop.rate {
            Some(rate) => Some(rate@ + " Mb/s from the browser"@),
            None => None,
        },
        None => None,
    }
}

pub open spec fn or_else(first: Option<Seq<char>>, second: Option<Seq<char>>) -> Option<Seq<char>> {
    match first {
        Some(text) => Some(text),
        None => second,
    }
}

/// Whether a link ran out before anyone used it.
pub open spec fn unused(seat: SeatModel, now: i64) -> bool {
    seat.joined_at is None && seat.expired(now)
}

pub open spec fn invited_of(seat: SeatModel, now: i64) -> StepModel {
    StepModel {
        step: "invited"@,
        state: State::Done,
        detail: Some(
            if seat.revoked {
                "link revoked"@
            } else if unused(seat, now) {
                "link expired unused"@
            } else {
                "link created"@
            },
        ),
    }
}

pub open spec fn joined_of(seat: SeatModel, node: Option<NodeFacts>, now: i64) -> StepModel {
    let (state, detail) = match node {
        Some(NodeFacts { status: NodeStatus::Ready }) | Some(
            NodeFacts { status: NodeStatus::Degraded },
        ) => (State::Done, "browser node registered"@),
        Some(NodeFacts { status: NodeStatus::Offline }) => (
            State::Failed,
            "browser node stopped heartbeating"@,
        ),
        Some(NodeFacts { status: NodeStatus::Unknown }) | None => if seat.joined_at is Some {
            (State::Failed, "browser node is gone"@)
        } else if seat.expired(now) {
            (State::Pending, "never opened"@)
        } else {
            (State::Pending, "waiting for the guest to open the link"@)
        },
    };
    StepModel { step: "joined"@, state, detail: Some(detail) }
}

/// Routed is about the control plane having a plan: a stream declared, placed
/// onto a gateway node, and a hop the page could act on.
pub open spec fn routed_of(
    stream: Option<StreamStatus>,
    sender: Option<HopStatus>,
    target: Seq<char>,
) -> StepModel {
    let (state, detail) = match stream {
        None => (State::Pending, None),
        Some(stream) => if stream.status@ == "pending"@ {
            (State::Active, or_else(stream.shown_reason(), Some("weave is placing the stream"@)))
        } else if stream.status@ == "failed"@ {
            (State::Failed, stream.shown_reason())
        } else if is_failing(sender) {
            (State::Failed, Some("the browser could not open the WHIP session"@))
        } else {
            (
                State::Done,
                Some(
                    match stream.dialled() {
                        Some(output) => "WHIP into "@ + target + ", out as "@ + output.url@,
                        None => "WHIP into "@ + target,
                    },
                ),
            )
        },
    };
    StepModel { step: "routed"@, state, detail }
}

/// Degraded covers both "still flowing, but something is wrong" and
/// "the path broke". Whether the browser is sending is what tells them
/// apart, so it decides which one this reads as. While the browser sends and
/// nothing pulls, the step is active and shows the browser's own rate.
pub open spec fn flowing_of(stream: Option<StreamStatus>, sender: Option<HopStatus>) -> StepModel {
    let sending = is_sending(sender);
    let rate = rate_of(sender);
    let otherwise = if sending {
        (State::Active, rate)
    } else {
        (State::Pending, None)
    };
    let (state, detail) = match stream {
        None => otherwise,
        Some(stream) => if stream.status@ == "flowing"@ {
            (State::Done, or_else(rate, Some("media is moving"@)))
        } else if stream.status@ == "degraded"@ {
            if sending {
                (State::Active, or_else(stream.shown_reason(), rate))
            } else {
                (State::Failed, stream.shown_reason())
            }
        } else if stream.status@ == "awaiting_input"@ {
            if sending {
                (
                    State::Active,
                    or_else(rate, Some("browser is sending; the gateway has no consumer yet"@)),
                )
            } else {
                (State::Pending, Some("waiting for the browser to send"@))
            }
        } else {
            otherwise
        },
    };
    StepModel { step: "flowing"@, state, detail }
}

/// Landed is about open-live's provider having created the source; what status the source is in
/// is told with it.
pub open spec fn landed_of(source: Option<Source>, watched: bool) -> StepModel {
    let (state, detail) = if !watched {
        (State::Pending, "open-live is not being watched"@)
    } else {
        match source {
            None => (State::Pending, "open-live has not discovered the stream yet"@),
            Some(source) => (
                State::Done,
                "source "@ + source.id@ + " is "@ + (match source.status {
                    Some(status) => status@,
                    None => "unknown"@,
                }),
            ),
        }
    };
    StepModel { step: "open-live"@, state, detail: Some(detail) }
}

/// The five steps of a seat.
pub open spec fn chain_of(
    seat: SeatModel,
    snapshot: SnapshotModel,
    cfg: ConfigModel,
    now: i64,
) -> Seq<StepModel> {
    let stream = found(snapshot.streams, seat.seat);
    let sender = sender_of(snapshot, seat.seat);
    seq![
        invited_of(seat, now),
        joined_of(seat, found(snapshot.nodes, seat.seat), now),
        routed_of(stream, sender, cfg.target_node),
        flowing_of(stream, sender),
        landed_of(found(snapshot.sources, seat.seat), cfg.open_live_url is Some),
    ]
}

/// The one word for where a seat stands: what ended it, else the furthest step that is done.
pub open spec fn stage_of(seat: SeatModel, chain: Seq<StepModel>, now: i64) -> Seq<char> {
    if seat.revoked {
        "revoked"@
    } else if chain[1].state == State::Failed {
        "left"@
    } else if unused(seat, now) {
        "expired"@
    } else if chain[3].state == State::Done {
        "flowing"@
    } else if chain[4].state == State::Done {
        "open-live"@
    } else if chain[2].state == State::Done {
        "routed"@
    } else if chain[1].state == State::Done {
        "joined"@
    } else {
        "invited"@
    }
}

/// What the pages show of a seat.
pub open spec fn seat_view(
    seat: SeatModel,
    snapshot: SnapshotModel,
    cfg: ConfigModel,
    now: i64,
) -> SeatViewModel {
    let chain = chain_of(seat, snapshot, cfg, now);
    SeatViewModel {
        seat: seat.seat,
        display_name: seat.display_name,
        join_url: link(cfg, seat.token),
        created_at: shown(seat.created_at),
        expires_at: shown(seat.expires_at),
        stage: stage_of(seat, chain, now),
        chain,
    }
}

fn step(name: &'static str, state: State, detail: Option<String>) -> (r: Step)
    ensures
        r@ == (StepModel { step: name@, state, detail: text_of(detail) }),
{
    Step { step: name, state, detail }
}

fn some(text: &str) -> (r: Option<String>)
    ensures
        text_of(r) == Some(text@),
{
    Some(text.to_owned())
}

fn find_sender(hops: &Vec<HopStatus>) -> (r: Option<&HopStatus>)
    ensures
        behind(r) == first_sender(hops@),
{
    assert(hops@.skip(0) =~= hops@);
    for i in 0..hops.len()
        invariant
            first_sender(hops@) == first_sender(hops@.skip(i as int)),
    {
        assert(hops@.skip(i as int).first() == hops@[i as int]);
        assert(hops@.skip(i as int).drop_first() =~= hops@.skip(i + 1));
        if ends_with(hops[i].id.as_str(), "-sender") {
            return Some(&hops[i]);
        }
    }
    None
}

impl SeatView {
    pub fn build(seat: &Seat, snapshot: &Snapshot, cfg: &Config, now: i64) -> (r: Self)
        ensures
            r@ == seat_view(seat@, snapshot@, cfg@, now),
    {
        let id = seat.seat.as_str();
        let node = snapshot.nodes.get(id);
        let stream = snapshot.streams.get(id);
        let source = snapshot.sources.get(id);
        let sender = match snapshot.reported.get(id) {
            Some(hops) => find_sender(hops),
            None => None,
        };
        let invited = step("invited", State::Done, Some(invited_detail(seat, now)));
        let joined = joined_step(seat, node, now);
        let routed = routed_step(stream, sender, cfg);
        let flowing = flowing_step(stream, sender);
        let landed = landed_step(source, cfg);
        let stage = if seat.revoked {
            "revoked"
        } else if joined.state == State::Failed {
            "left"
        } else if seat.joined_at.is_none() && seat.expired(now) {
            "expired"
        } else if flowing.state == State::Done {
            "flowing"
        } else if landed.state == State::Done {
            "open-live"
        } else if routed.state == State::Done {
            "routed"
        } else if joined.state == State::Done {
            "joined"
        } else {
            "invited"
        };
        let chain = vec![invited, joined, routed, flowing, landed];
        proof {
            assert(steps(chain@) =~= chain_of(seat@, snapshot@, cfg@, now));
        }
        SeatView {
            seat: seat.seat.clone(),
            display_name: seat.display_name.clone(),
            join_url: cfg.join_url(seat.token.as_str()),
            created_at: rfc3339(seat.created_at),
            expires_at: rfc3339(seat.expires_at),
            stage,
            chain,
        }
    }
}

fn invited_detail(seat: &Seat, now: i64) -> (r: String)
    ensures
        Some(r@) == invited_of(seat@, now).detail,
{
    if seat.revoked {
        return "link revoked".to_owned();
    }
    if seat.joined_at.is_none() && seat.expired(now) {
        return "link expired unused".to_owned();
    }
    "link created".to_owned()
}

fn joined_step(seat: &Seat, node: Option<&NodeFacts>, now: i64) -> (r: Step)
    ensures
        r@ == joined_of(seat@, behind(node), now),
{
    let status = match node {
        Some(node) => node.status,
        None => NodeStatus::Unknown,
    };
    match status {
        NodeStatus::Ready | NodeStatus::Degraded => step(
            "joined",
            State::Done,
            some("browser node registered"),
        ),
        NodeStatus::Offline => step(
            "joined",
            State::Failed,
            some("browser node stopped heartbeating"),
        ),
        NodeStatus::Unknown => {
            if seat.joined_at.is_some() {
                step("joined", State::Failed, some("browser node is gone"))
            } else if seat.expired(now) {
                step("joined", State::Pending, some("never opened"))
            } else {
                step("joined", State::Pending, some("waiting for the guest to open the link"))
            }
        },
    }
}

fn routed_step(stream: Option<&StreamStatus>, sender: Option<&HopStatus>, cfg: &Config) -> (r: Step)
    ensures
        r@ == routed_of(behind(stream), behind(sender), cfg@.target_node),
{
    let Some(stream) = stream else {
        return step("routed", State::Pending, None);
    };
    let status = stream.status.as_str();
    if same(status, "pending") {
        let detail = match stream.reason() {
            Some(reason) => Some(reason),
            None => some("weave is placing the stream"),
        };
        return step("routed", State::Active, detail);
    }
    if same(status, "failed") {
        return step("routed", State::Failed, stream.reason());
    }
    if let Some(hop) = sender {
        if hop.state == HopState::Failed {
            return step(
                "routed",
                State::Failed,
                some("the browser could not open the WHIP session"),
            );
        }
    }
    let whip = joined("WHIP into ", cfg.target_node.as_str());
    let detail = match stream.output() {
        Some(output) => whip.concat(", out as ").concat(output.url.as_str()),
        None => whip,
    };
    step("routed", State::Done, Some(detail))
}

fn flowing_step(stream: Option<&StreamStatus>, sender: Option<&HopStatus>) -> (r: Step)
    ensures
        r@ == flowing_of(behind(stream), behind(sender)),
{
    let mut rate: Option<String> = None;
    let mut sending = false;
    if let Some(hop) = sender {
        if let Some(text) = &hop.rate {
            rate = Some(joined(text.as_str(), " Mb/s from the browser"));
        }
        sending = matches!(hop.egress, LinkCondition::Flowing | LinkCondition::Connected);
    }
    assert(text_of(rate) == rate_of(behind(sender)));
    assert(sending == is_sending(behind(sender)));
    if let Some(stream) = stream {
        let status = stream.status.as_str();
        if same(status, "flowing") {
            let detail = match rate {
                Some(rate) => Some(rate),
                None => some("media is moving"),
            };
            return step("flowing", State::Done, detail);
        }
        if same(status, "degraded") {
            if sending {
                let detail = match stream.reason() {
                    Some(reason) => Some(reason),
                    None => rate,
                };
                return step("flowing", State::Active, detail);
            }
            return step("flowing", State::Failed, stream.reason());
        }
        if same(status, "awaiting_input") {
            if sending {
                let detail = match rate {
                    Some(rate) => Some(rate),
                    None => some("browser is sending; the gateway has no consumer yet"),
                };
                return step("flowing", State::Active, detail);
            }
            return step("flowing", State::Pending, some("waiting for the browser to send"));
        }
    }
    if sending {
        step("flowing", State::Active, rate)
    } else {
        step("flowing", State::Pending, None)
    }
}

fn landed_step(source: Option<&Source>, cfg: &Config) -> (r: Step)
    ensures
        r@ == landed_of(behind(source), cfg@.open_live_url is Some),
{
    if cfg.open_live_url.is_none() {
        return step("open-live", State::Pending, some("open-live is not being watched"));
    }
    let Some(source) = source else {
        return step(
            "open-live",
            State::Pending,
            some("open-live has not discovered the stream yet"),
        );
    };
    let status: &str = match &source.status {
        Some(status) => status.as_str(),
        None => "unknown",
    };
    let detail = joined("source ", source.id.as_str()).concat(" is ").concat(status);
    step("open-live", State::Done, Some(detail))
}

/// Every chain has the same five steps in the same order, and the first is always done.
pub proof fn law_chain_has_five_steps(
    seat: SeatModel,
    snapshot: SnapshotModel,
    cfg: ConfigModel,
    now: i64,
)
    ensures
        ({
            let chain = chain_of(seat, snapshot, cfg, now);
            &&& chain.len() == 5
            &&& chain[0].step == "invited"@ && chain[0].state == State::Done
            &&& chain[1].step == "joined"@
            &&& chain[2].step == "routed"@
            &&& chain[3].step == "flowing"@
            &&& chain[4].step == "open-live"@
        }),
{
}

/// When a step is done: joined, where the node is registered and heartbeating; routed, where weave
/// has placed the stream and the page's hop into it has not failed; flowing, where weave reads
/// media as moving; landed, where open-live is watched and its provider has created the source.
pub proof fn law_when_steps_are_done(
    seat: SeatModel,
    snapshot: SnapshotModel,
    cfg: ConfigModel,
    now: i64,
)
    ensures
        ({
            let chain = chain_of(seat, snapshot, cfg, now);
            let node = found(snapshot.nodes, seat.seat);
            let stream = found(snapshot.streams, seat.seat);
            let source = found(snapshot.sources, seat.seat);
            &&& chain[1].state == State::Done <==> node is Some && (node->0).status.is_online()
            &&& chain[2].state == State::Done <==> stream is Some && (stream->0).status@
                != "pending"@ && (stream->0).status@ != "failed"@ && !is_failing(
                sender_of(snapshot, seat.seat),
            )
            &&& chain[3].state == State::Done <==> stream is Some && (stream->0).status@
                == "flowing"@
            &&& chain[4].state == State::Done <==> cfg.open_live_url is Some && source is Some
        }),
{
}

/// A browser that sends while nothing pulls is no fault: the flowing step is active then and shows
/// the browser's own rate, where one is reported. The step has failed only where weave reads a
/// degraded path and the browser is not sending.
pub proof fn law_sending_is_no_fault(stream: Option<StreamStatus>, sender: Option<HopStatus>)
    ensures
        is_sending(sender) ==> flowing_of(stream, sender).state != State::Failed,
        is_sending(sender) && (stream matches Some(stream) ==> stream.status@ != "flowing"@
            && stream.status@ != "degraded"@) ==> flowing_of(stream, sender).state == State::Active
            && (rate_of(sender) is Some ==> flowing_of(stream, sender).detail == rate_of(sender)),
        flowing_of(stream, sender).state == State::Failed <==> !is_sending(sender) && stream is Some
            && (stream->0).status@ == "degraded"@,
{
    reveal_strlit("flowing");
    reveal_strlit("degraded");
    assert("flowing"@.len() != "degraded"@.len());
}

/// A seat shows as revoked exactly where it is; else a guest whose node has stopped, or is gone
/// after it was seen, shows as left.
pub proof fn law_stage_of_the_ended(
    seat: SeatModel,
    snapshot: SnapshotModel,
    cfg: ConfigModel,
    now: i64,
)
    ensures
        ({
            let view = seat_view(seat, snapshot, cfg, now);
            let node = found(snapshot.nodes, seat.seat);
            &&& view.stage == "revoked"@ <==> seat.revoked
            &&& view.stage == "left"@ <==> !seat.revoked && (match node {
                Some(node) => node.status == NodeStatus::Offline || (node.status
                    == NodeStatus::Unknown && seat.joined_at is Some),
                None => seat.joined_at is Some,
            })
        }),
{
    reveal_strlit("revoked");
    reveal_strlit("left");
    reveal_strlit("expired");
    reveal_strlit("flowing");
    reveal_strlit("open-live");
    reveal_strlit("routed");
    reveal_strlit("joined");
    reveal_strlit("invited");
    assert("revoked"@[2] == 'v');
    assert("left"@.len() == 4);
    assert("expired"@[2] == 'p');
    assert("flowing"@[2] == 'o');
    assert("open-live"@.len() == 9);
    assert("routed"@.len() == 6);
    assert("joined"@.len() == 6);
    assert("invited"@[0] == 'i');
    assert("revoked"@[0] == 'r');
}

} // verus!
