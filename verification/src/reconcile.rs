//! The one thing that changes anything: what a tick finds, what it does about it, and the
//! snapshot it leaves.
use vstd::prelude::*;

use crate::clock::{rfc3339, shown};
use crate::config::{Config, ConfigModel};
use crate::live::Source;
use crate::names::{collect, collected, is_listed, listed, NameMap};
use crate::seat::{
    by_own_id, law_list_holds_every_seat, list_keys, listing, models, Seat, SeatModel, SeatStore,
};
use crate::snapshot::{found, sender_of, NodeFacts, Snapshot, SnapshotModel};
use crate::weave::{
    camera_definition, camera_stream, NodeStatus, StatusRollup, StreamDefinition, StreamModel,
    StreamStatus, TransportModel,
};

verus! {

/// What the other systems answered on a tick, or the error where one did not. There are no
/// sources to ask for where open-live is not watched.
#[derive(Debug)]
pub struct Findings {
    pub nodes: Result<Vec<(String, NodeStatus)>, String>,
    /// The names of the streams that weave holds.
    pub declared: Result<Vec<String>, String>,
    pub status: Result<StatusRollup, String>,
    pub sources: Option<Result<Vec<Source>, String>>,
}

/// What a tick knows: findings by seat, and what could not be found out.
#[derive(Debug)]
pub struct Facts {
    pub nodes: Option<NameMap<NodeFacts>>,
    pub declared: Option<Vec<String>>,
    pub streams: NameMap<StreamStatus>,
    pub sources: NameMap<Source>,
    pub errors: Vec<String>,
}

/// What a tick knows, as mathematics.
pub struct FactsModel {
    pub nodes: Option<Map<Seq<char>, NodeFacts>>,
    pub declared: Option<Set<Seq<char>>>,
    pub streams: Map<Seq<char>, StreamStatus>,
    pub sources: Map<Seq<char>, Source>,
    pub errors: Seq<String>,
}

/// The nodes that are known, where any are.
pub open spec fn known(nodes: Option<NameMap<NodeFacts>>) -> Option<Map<Seq<char>, NodeFacts>> {
    match nodes {
        Some(nodes) => Some(nodes@),
        None => None,
    }
}

impl View for Facts {
    type V = FactsModel;

    open spec fn view(&self) -> FactsModel {
        FactsModel {
            nodes: known(self.nodes),
            declared: match self.declared {
                Some(names) => Some(listed(names@)),
                None => None,
            },
            streams: self.streams@,
            sources: self.sources@,
            errors: self.errors@,
        }
    }
}

/// Nodes by their id; the last of an id stays.
pub open spec fn by_id(nodes: Seq<(String, NodeStatus)>) -> Map<Seq<char>, NodeFacts> {
    collected(nodes.map_values(|node: (String, NodeStatus)| (node.0, NodeFacts { status: node.1 })))
}

/// Streams by their name; the last of a name stays.
pub open spec fn by_name(streams: Seq<StreamStatus>) -> Map<Seq<char>, StreamStatus>
    decreases streams.len(),
{
    if streams.len() == 0 {
        Map::empty()
    } else {
        by_name(streams.drop_last()).insert(streams.last().name@, streams.last())
    }
}

/// Sources by the seat they show, but for those that show none; the last of a seat stays.
pub open spec fn by_seat(sources: Seq<Source>) -> Map<Seq<char>, Source>
    decreases sources.len(),
{
    if sources.len() == 0 {
        Map::empty()
    } else {
        match sources.last().seat_name() {
            Some(seat) => by_seat(sources.drop_last()).insert(seat, sources.last()),
            None => by_seat(sources.drop_last()),
        }
    }
}

/// The error of a finding, if it has one.
pub open spec fn error_in<T>(finding: Result<T, String>) -> Seq<String> {
    match finding {
        Ok(_) => Seq::empty(),
        Err(error) => seq![error],
    }
}

/// What the findings come to. A system that did not answer leaves nothing known of its kind.
pub open spec fn facts_of(findings: Findings) -> FactsModel {
    FactsModel {
        nodes: match findings.nodes {
            Ok(nodes) => Some(by_id(nodes@)),
            Err(_) => None,
        },
        declared: match findings.declared {
            Ok(names) => Some(listed(names@)),
            Err(_) => None,
        },
        streams: match findings.status {
            Ok(rollup) => by_name(rollup.streams@),
            Err(_) => Map::empty(),
        },
        sources: match findings.sources {
            Some(Ok(sources)) => by_seat(sources@),
            _ => Map::empty(),
        },
        errors: error_in(findings.nodes) + error_in(findings.declared) + error_in(findings.status)
            + (match findings.sources {
            Some(sources) => error_in(sources),
            None => Seq::empty(),
        }),
    }
}

fn nodes_by_id(nodes: Vec<(String, NodeStatus)>) -> (r: NameMap<NodeFacts>)
    ensures
        r@ == by_id(nodes@),
{
    let ghost all = nodes@;
    let ghost wanted = all.map_values(
        |node: (String, NodeStatus)| (node.0, NodeFacts { status: node.1 }),
    );
    let mut pairs: Vec<(String, NodeFacts)> = Vec::new();
    for node in it: nodes
        invariant
            it.seq() == all,
            wanted == all.map_values(
                |node: (String, NodeStatus)| (node.0, NodeFacts { status: node.1 }),
            ),
            pairs@ == wanted.take(it.index() as int),
    {
        let (id, status) = node;
        pairs.push((id, NodeFacts { status }));
        assert(pairs@ =~= wanted.take(it.index() + 1));
    }
    assert(pairs@ =~= wanted);
    collect(pairs)
}

fn streams_by_name(streams: Vec<StreamStatus>) -> (r: NameMap<StreamStatus>)
    ensures
        r@ == by_name(streams@),
{
    let ghost all = streams@;
    let mut map: NameMap<StreamStatus> = NameMap::new();
    for stream in it: streams
        invariant
            it.seq() == all,
            map@ == by_name(all.take(it.index() as int)),
    {
        assert(all.take(it.index() + 1).drop_last() =~= all.take(it.index() as int));
        map.insert(stream.name.clone(), stream);
    }
    assert(all.take(all.len() as int) =~= all);
    map
}

fn sources_by_seat(sources: Vec<Source>) -> (r: NameMap<Source>)
    ensures
        r@ == by_seat(sources@),
{
    let ghost all = sources@;
    let mut map: NameMap<Source> = NameMap::new();
    for source in it: sources
        invariant
            it.seq() == all,
            map@ == by_seat(all.take(it.index() as int)),
    {
        assert(all.take(it.index() + 1).drop_last() =~= all.take(it.index() as int));
        let seat = match source.seat() {
            Some(seat) => Some(seat.to_owned()),
            None => None,
        };
        if let Some(seat) = seat {
            map.insert(seat, source);
        }
    }
    assert(all.take(all.len() as int) =~= all);
    map
}

/// Sorts what the other systems answered.
pub fn observe(findings: Findings) -> (r: Facts)
    ensures
        r@ == facts_of(findings),
{
    let mut errors: Vec<String> = Vec::new();
    let nodes = match findings.nodes {
        Ok(nodes) => Some(nodes_by_id(nodes)),
        Err(error) => {
            errors.push(error);
            None
        },
    };
    let declared = match findings.declared {
        Ok(names) => Some(names),
        Err(error) => {
            errors.push(error);
            None
        },
    };
    let streams = match findings.status {
        Ok(rollup) => streams_by_name(rollup.streams),
        Err(error) => {
            errors.push(error);
            NameMap::new()
        },
    };
    let sources = match findings.sources {
        Some(Ok(sources)) => sources_by_seat(sources),
        Some(Err(error)) => {
            errors.push(error);
            NameMap::new()
        },
        None => NameMap::new(),
    };
    assert(errors@ =~= facts_of(findings).errors);
    Facts { nodes, declared, streams, sources, errors }
}

/// Something for a tick to do.
#[derive(Debug)]
pub enum Action {
    /// Ask weave to hold a stream.
    Declare(StreamDefinition),
    /// Ask weave to drop the stream of a seat.
    Withdraw(String),
    /// Note that the seat's guest was seen.
    Join { seat: String, at: i64 },
    /// Forget a seat.
    Forget(String),
}

/// Something to do, as mathematics.
pub enum ActionModel {
    Declare(StreamModel),
    Withdraw(Seq<char>),
    Join { seat: Seq<char>, at: i64 },
    Forget(Seq<char>),
}

impl View for Action {
    type V = ActionModel;

    open spec fn view(&self) -> ActionModel {
        match *self {
            Action::Declare(stream) => ActionModel::Declare(stream@),
            Action::Withdraw(seat) => ActionModel::Withdraw(seat@),
            Action::Join { seat, at } => ActionModel::Join { seat: seat@, at },
            Action::Forget(seat) => ActionModel::Forget(seat@),
        }
    }
}

/// Whether a seat's node is heartbeating.
pub open spec fn is_online(nodes: Map<Seq<char>, NodeFacts>, seat: Seq<char>) -> bool {
    match found(nodes, seat) {
        Some(node) => node.status.is_online(),
        None => false,
    }
}

/// A guest whose page is merely reloading keeps the stream: the node
/// stays known to weave until its TTL, and the seat until revoked.
pub open spec fn is_unwanted(seat: SeatModel, now: i64) -> bool {
    seat.revoked || seat.expired(now)
}

/// The stream that a seat is given.
pub open spec fn stream_of(seat: SeatModel, cfg: ConfigModel) -> StreamModel {
    camera_stream(seat.seat, cfg.target_node, cfg.target_network, cfg.target_latency_ms)
}

/// An action where the condition holds, and none where it does not.
pub open spec fn only_if(condition: bool, action: ActionModel) -> Seq<ActionModel> {
    if condition {
        seq![action]
    } else {
        Seq::empty()
    }
}

/// What to do about one seat. A revoked seat is only forgotten once its stream is gone, so a
/// failed delete is retried instead of leaking an orphan.
pub open spec fn seat_plan(
    seat: SeatModel,
    nodes: Map<Seq<char>, NodeFacts>,
    declared: Set<Seq<char>>,
    cfg: ConfigModel,
    now: i64,
) -> Seq<ActionModel> {
    let online = is_online(nodes, seat.seat);
    let held = declared.contains(seat.seat);
    only_if(
        online && !is_unwanted(seat, now) && !held,
        ActionModel::Declare(stream_of(seat, cfg)),
    ) + only_if(is_unwanted(seat, now) && held, ActionModel::Withdraw(seat.seat)) + only_if(
        seat.joined_at is None && online,
        ActionModel::Join { seat: seat.seat, at: now },
    ) + only_if(seat.revoked && !held, ActionModel::Forget(seat.seat))
}

/// What to do about the seats, one after the other.
pub open spec fn seats_plan(
    seats: Seq<SeatModel>,
    nodes: Map<Seq<char>, NodeFacts>,
    declared: Set<Seq<char>>,
    cfg: ConfigModel,
    now: i64,
) -> Seq<ActionModel>
    decreases seats.len(),
{
    if seats.len() == 0 {
        Seq::empty()
    } else {
        seats_plan(seats.drop_last(), nodes, declared, cfg, now) + seat_plan(
            seats.last(),
            nodes,
            declared,
            cfg,
            now,
        )
    }
}

/// What a tick does. Nothing is changed unless weave answered both questions. An unreachable
/// northbound reads as an empty stream list, and acting on that would
/// withdraw every guest's stream.
pub open spec fn plan_of(
    seats: Seq<SeatModel>,
    facts: FactsModel,
    cfg: ConfigModel,
    now: i64,
) -> Seq<ActionModel> {
    match (facts.nodes, facts.declared) {
        (Some(nodes), Some(declared)) => seats_plan(seats, nodes, declared, cfg, now),
        _ => Seq::empty(),
    }
}

/// The actions of a list as mathematics.
pub open spec fn actions(plan: Seq<Action>) -> Seq<ActionModel> {
    plan.map_values(|action: Action| action@)
}

fn online(nodes: &NameMap<NodeFacts>, seat: &str) -> (r: bool)
    ensures
        r == is_online(nodes@, seat@),
{
    match nodes.get(seat) {
        Some(node) => node.status.online(),
        None => false,
    }
}

/// Decides what to do about the seats.
pub fn plan(seats: &Vec<Seat>, facts: &Facts, cfg: &Config, now: i64) -> (r: Vec<Action>)
    ensures
        actions(r@) == plan_of(models(seats@), facts@, cfg@, now),
{
    let mut plan: Vec<Action> = Vec::new();
    assert(actions(plan@) =~= Seq::<ActionModel>::empty());
    let (Some(nodes), Some(declared)) = (&facts.nodes, &facts.declared) else {
        return plan;
    };
    let ghost all = models(seats@);
    assert(all.take(0) =~= Seq::<SeatModel>::empty());
    for i in 0..seats.len()
        invariant
            all == models(seats@),
            actions(plan@) == seats_plan(all.take(i as int), nodes@, listed(declared@), cfg@, now),
    {
        let seat = &seats[i];
        let ghost before = actions(plan@);
        let ghost expected = seat_plan(seat@, nodes@, listed(declared@), cfg@, now);
        let online = online(nodes, seat.seat.as_str());
        let held = is_listed(declared, seat.seat.as_str());
        let unwanted = seat.revoked || seat.expired(now);
        if online && !unwanted && !held {
            let network = match &cfg.target_network {
                Some(network) => Some(network.as_str()),
                None => None,
            };
            let stream = camera_definition(
                seat.seat.as_str(),
                cfg.target_node.as_str(),
                network,
                cfg.target_latency_ms,
            );
            let ghost here = plan@;
            plan.push(Action::Declare(stream));
            assert(actions(plan@) =~= actions(here).push(ActionModel::Declare(stream@)));
        }
        let ghost first = actions(plan@);
        assert(first =~= before + only_if(
            online && !unwanted && !held,
            ActionModel::Declare(stream_of(seat@, cfg@)),
        ));
        if unwanted && held {
            let ghost here = plan@;
            plan.push(Action::Withdraw(seat.seat.clone()));
            assert(actions(plan@) =~= actions(here).push(ActionModel::Withdraw(seat@.seat)));
        }
        let ghost second = actions(plan@);
        assert(second =~= first + only_if(unwanted && held, ActionModel::Withdraw(seat@.seat)));
        if seat.joined_at.is_none() && online {
            let ghost here = plan@;
            plan.push(Action::Join { seat: seat.seat.clone(), at: now });
            assert(actions(plan@) =~= actions(here).push(
                ActionModel::Join { seat: seat@.seat, at: now },
            ));
        }
        let ghost third = actions(plan@);
        assert(third =~= second + only_if(
            seat.joined_at is None && online,
            ActionModel::Join { seat: seat@.seat, at: now },
        ));
        if seat.revoked && !held {
            let ghost here = plan@;
            plan.push(Action::Forget(seat.seat.clone()));
            assert(actions(plan@) =~= actions(here).push(ActionModel::Forget(seat@.seat)));
        }
        proof {
            assert(actions(plan@) =~= third + only_if(
                seat.revoked && !held,
                ActionModel::Forget(seat@.seat),
            ));
            assert(actions(plan@) =~= before + expected);
            assert(all.take(i + 1).drop_last() =~= all.take(i as int));
            assert(all.take(i + 1).last() == seat@);
        }
    }
    assert(all.take(all.len() as int) =~= all);
    plan
}

/// A tick: what is known, and what to do about it.
#[derive(Debug)]
pub struct Tick {
    pub facts: Facts,
    pub plan: Vec<Action>,
}

/// Reads the findings and decides what to do about the seats. The actions are then carried out
/// in order, whatever comes of each, and `conclude` is given the errors.
pub fn tick(seats: &Vec<Seat>, findings: Findings, cfg: &Config, now: i64) -> (r: Tick)
    ensures
        r.facts@ == facts_of(findings),
        actions(r.plan@) == plan_of(models(seats@), facts_of(findings), cfg@, now),
{
    let facts = observe(findings);
    let plan = plan(seats, &facts, cfg, now);
    Tick { facts, plan }
}

/// A seat whose guest was seen.
pub open spec fn seen(seat: SeatModel, at: i64) -> SeatModel {
    SeatModel { joined_at: Some(at), ..seat }
}

/// The store once a guest was seen.
pub open spec fn with_joined(
    store: Map<Seq<char>, SeatModel>,
    seat: Seq<char>,
    at: i64,
) -> Map<Seq<char>, SeatModel> {
    if store.contains_key(seat) {
        store.insert(seat, seen(store[seat], at))
    } else {
        store
    }
}

/// Notes that a seat's guest was seen. The store is to be saved where there is such a seat.
pub fn mark_joined(store: &mut SeatStore, seat: &str, at: i64) -> (r: bool)
    ensures
        r == old(store)@.contains_key(seat@),
        final(store)@ == with_joined(old(store)@, seat@, at),
{
    let edit = |found: &mut Seat| -> (r: bool)
        ensures
            r && final(found)@ == seen(old(found)@, at),
        {
            found.joined_at = Some(at);
            true
        };
    store.update(seat, edit)
}

/// Whether a seat of the list has a heartbeating node.
pub open spec fn reporting(
    seats: Seq<SeatModel>,
    nodes: Option<Map<Seq<char>, NodeFacts>>,
) -> Set<Seq<char>> {
    Set::new(
        |name: Seq<char>|
            (exists|i: int| 0 <= i < seats.len() && (#[trigger] seats[i]).seat == name)
                && nodes is Some && is_online(nodes->0, name),
    )
}

/// The snapshot that a tick leaves. A hop status is only true of a node that is still
/// heartbeating. Keeping one past that would report a guest who has left as still sending.
pub open spec fn concluded(
    before: SnapshotModel,
    facts: FactsModel,
    seats: Seq<SeatModel>,
    failures: Seq<String>,
    now: i64,
) -> SnapshotModel {
    SnapshotModel {
        reconciled_at: shown(now),
        nodes: match facts.nodes {
            Some(nodes) => nodes,
            None => Map::empty(),
        },
        streams: facts.streams,
        sources: facts.sources,
        reported: before.reported.restrict(reporting(seats, facts.nodes)),
        errors: facts.errors + failures,
    }
}

fn reporting_seats(seats: &Vec<Seat>, nodes: &Option<NameMap<NodeFacts>>) -> (r: Vec<String>)
    ensures
        listed(r@) == reporting(models(seats@), known(*nodes)),
{
    let ghost all = models(seats@);
    let ghost known = known(*nodes);
    let mut names: Vec<String> = Vec::new();
    for i in 0..seats.len()
        invariant
            all == models(seats@),
            known == self::known(*nodes),
            forall|name: Seq<char>| #[trigger]
                listed(names@).contains(name) <==> reporting(all.take(i as int), known).contains(
                    name,
                ),
    {
        let ghost earlier = all.take(i as int);
        let ghost later = all.take(i + 1);
        let ghost before = names@;
        let id = seats[i].seat.as_str();
        let reports = match nodes {
            Some(nodes) => online(nodes, id),
            None => false,
        };
        if reports {
            names.push(id.to_owned());
        }
        proof {
            assert(later =~= earlier.push(seats@[i as int]@));
            assert forall|name: Seq<char>| #[trigger]
                listed(names@).contains(name) <==> reporting(later, known).contains(name) by {
                assert(listed(before).contains(name) <==> reporting(earlier, known).contains(name));
                let old_texts = before.map_values(|name: String| name@);
                let texts = names@.map_values(|name: String| name@);
                if old_texts.contains(name) {
                    assert(texts[old_texts.index_of(name)] == name);
                }
                if texts.contains(name) {
                    let k = texts.index_of(name);
                    if k < old_texts.len() {
                        assert(old_texts[k] == name);
                    } else {
                        assert(later[i as int].seat == name);
                    }
                }
                if exists|k: int| 0 <= k < earlier.len() && (#[trigger] earlier[k]).seat == name {
                    let k = choose|k: int|
                        0 <= k < earlier.len() && (#[trigger] earlier[k]).seat == name;
                    assert(later[k].seat == name);
                }
                if reporting(later, known).contains(name) {
                    let k = choose|k: int|
                        0 <= k < later.len() && (#[trigger] later[k]).seat == name;
                    if k < i {
                        assert(earlier[k].seat == name);
                    } else {
                        assert(reports);
                        assert(texts[before.len() as int] == name);
                    }
                }
            }
        }
    }
    assert(all.take(all.len() as int) =~= all);
    assert(listed(names@) =~= reporting(all, known));
    names
}

/// Leaves the snapshot of a tick: what it knew, and what went wrong in finding out and then in
/// carrying out the plan.
pub fn conclude(
    snapshot: &mut Snapshot,
    facts: Facts,
    seats: &Vec<Seat>,
    failures: Vec<String>,
    now: i64,
)
    ensures
        final(snapshot)@ == concluded(old(snapshot)@, facts@, models(seats@), failures@, now),
{
    let reporting = reporting_seats(seats, &facts.nodes);
    snapshot.reconciled_at = rfc3339(now);
    snapshot.nodes = match facts.nodes {
        Some(nodes) => nodes,
        None => NameMap::new(),
    };
    snapshot.streams = facts.streams;
    snapshot.sources = facts.sources;
    let mut errors = facts.errors;
    let mut failures = failures;
    errors.append(&mut failures);
    snapshot.errors = errors;
    snapshot.reported.keep_only(&reporting);
}

// What holds of any plan.

/// The seat that an action is about.
pub open spec fn on_seat(action: ActionModel) -> Seq<char> {
    match action {
        ActionModel::Declare(stream) => stream.name,
        ActionModel::Withdraw(seat) => seat,
        ActionModel::Join { seat, at } => seat,
        ActionModel::Forget(seat) => seat,
    }
}

/// Every action of a plan is one that some seat of the list calls for.
proof fn lemma_planned_for_a_seat(
    seats: Seq<SeatModel>,
    nodes: Map<Seq<char>, NodeFacts>,
    declared: Set<Seq<char>>,
    cfg: ConfigModel,
    now: i64,
    action: ActionModel,
) -> (i: int)
    requires
        seats_plan(seats, nodes, declared, cfg, now).contains(action),
    ensures
        0 <= i < seats.len(),
        seat_plan(seats[i], nodes, declared, cfg, now).contains(action),
    decreases seats.len(),
{
    let whole = seats_plan(seats, nodes, declared, cfg, now);
    let k = whole.index_of(action);
    let earlier = seats_plan(seats.drop_last(), nodes, declared, cfg, now);
    let last = seat_plan(seats.last(), nodes, declared, cfg, now);
    if k < earlier.len() {
        assert(earlier[k] == action);
        lemma_planned_for_a_seat(seats.drop_last(), nodes, declared, cfg, now, action)
    } else {
        assert(last[k - earlier.len()] == action);
        seats.len() - 1
    }
}

/// What a seat of the list calls for is in the plan.
proof fn lemma_seat_is_planned_for(
    seats: Seq<SeatModel>,
    nodes: Map<Seq<char>, NodeFacts>,
    declared: Set<Seq<char>>,
    cfg: ConfigModel,
    now: i64,
    action: ActionModel,
    i: int,
)
    requires
        0 <= i < seats.len(),
        seat_plan(seats[i], nodes, declared, cfg, now).contains(action),
    ensures
        seats_plan(seats, nodes, declared, cfg, now).contains(action),
    decreases seats.len(),
{
    let whole = seats_plan(seats, nodes, declared, cfg, now);
    let earlier = seats_plan(seats.drop_last(), nodes, declared, cfg, now);
    let last = seat_plan(seats.last(), nodes, declared, cfg, now);
    if i == seats.len() - 1 {
        let k = last.index_of(action);
        assert(whole[earlier.len() + k] == action);
    } else {
        lemma_seat_is_planned_for(seats.drop_last(), nodes, declared, cfg, now, action, i);
        assert(whole[earlier.index_of(action)] == action);
    }
}

proof fn lemma_only_if(condition: bool, action: ActionModel, any: ActionModel)
    ensures
        only_if(condition, action).contains(any) <==> condition && any == action,
{
    if condition {
        assert(only_if(condition, action)[0] == action);
    }
}

/// What is in the plan of a seat.
proof fn lemma_seat_plan_holds(
    seat: SeatModel,
    nodes: Map<Seq<char>, NodeFacts>,
    declared: Set<Seq<char>>,
    cfg: ConfigModel,
    now: i64,
    any: ActionModel,
)
    ensures
        seat_plan(seat, nodes, declared, cfg, now).contains(any) <==> ({
            let online = is_online(nodes, seat.seat);
            let held = declared.contains(seat.seat);
            ||| online && !is_unwanted(seat, now) && !held && any == ActionModel::Declare(
                stream_of(seat, cfg),
            )
            ||| is_unwanted(seat, now) && held && any == ActionModel::Withdraw(seat.seat)
            ||| seat.joined_at is None && online && any == (ActionModel::Join {
                seat: seat.seat,
                at: now,
            })
            ||| seat.revoked && !held && any == ActionModel::Forget(seat.seat)
        }),
{
    let online = is_online(nodes, seat.seat);
    let held = declared.contains(seat.seat);
    let declare = ActionModel::Declare(stream_of(seat, cfg));
    let withdraw = ActionModel::Withdraw(seat.seat);
    let join = ActionModel::Join { seat: seat.seat, at: now };
    let forget = ActionModel::Forget(seat.seat);
    let a = only_if(online && !is_unwanted(seat, now) && !held, declare);
    let b = only_if(is_unwanted(seat, now) && held, withdraw);
    let c = only_if(seat.joined_at is None && online, join);
    let d = only_if(seat.revoked && !held, forget);
    lemma_only_if(online && !is_unwanted(seat, now) && !held, declare, any);
    lemma_only_if(is_unwanted(seat, now) && held, withdraw, any);
    lemma_only_if(seat.joined_at is None && online, join, any);
    lemma_only_if(seat.revoked && !held, forget, any);
    lemma_either(a, b, any);
    lemma_either(a + b, c, any);
    lemma_either(a + b + c, d, any);
}

proof fn lemma_either(a: Seq<ActionModel>, b: Seq<ActionModel>, any: ActionModel)
    ensures
        (a + b).contains(any) <==> a.contains(any) || b.contains(any),
{
    if a.contains(any) {
        assert((a + b)[a.index_of(any)] == any);
    }
    if b.contains(any) {
        assert((a + b)[a.len() + b.index_of(any)] == any);
    }
    if (a + b).contains(any) {
        let k = (a + b).index_of(any);
        if k < a.len() {
            assert(a[k] == any);
        } else {
            assert(b[k - a.len()] == any);
        }
    }
}

/// Nothing is changed unless weave answered for both its nodes and its streams: a northbound that
/// is down cannot withdraw a guest.
pub proof fn law_silence_changes_nothing(
    seats: Seq<SeatModel>,
    findings: Findings,
    cfg: ConfigModel,
    now: i64,
)
    requires
        findings.nodes is Err || findings.declared is Err,
    ensures
        plan_of(seats, facts_of(findings), cfg, now) == Seq::<ActionModel>::empty(),
{
}

/// A stream is declared only for a heartbeating guest whose seat is in use, and only where weave
/// does not hold it yet. It is named after the seat, comes from the seat's camera, and goes to the
/// target.
pub proof fn law_when_streams_are_declared(
    seats: Seq<SeatModel>,
    nodes: Map<Seq<char>, NodeFacts>,
    declared: Set<Seq<char>>,
    cfg: ConfigModel,
    now: i64,
    stream: StreamModel,
)
    ensures
        seats_plan(seats, nodes, declared, cfg, now).contains(ActionModel::Declare(stream)) <==> (
        exists|i: int|
            0 <= i < seats.len() && stream == stream_of(#[trigger] seats[i], cfg) && is_online(
                nodes,
                seats[i].seat,
            ) && !is_unwanted(seats[i], now) && !declared.contains(seats[i].seat)),
{
    let plan = seats_plan(seats, nodes, declared, cfg, now);
    let action = ActionModel::Declare(stream);
    if plan.contains(action) {
        let i = lemma_planned_for_a_seat(seats, nodes, declared, cfg, now, action);
        lemma_seat_plan_holds(seats[i], nodes, declared, cfg, now, action);
        assert(stream == stream_of(seats[i], cfg));
    }
    if exists|i: int|
        0 <= i < seats.len() && stream == stream_of(#[trigger] seats[i], cfg) && is_online(
            nodes,
            seats[i].seat,
        ) && !is_unwanted(seats[i], now) && !declared.contains(seats[i].seat) {
        let i = choose|i: int|
            0 <= i < seats.len() && stream == stream_of(#[trigger] seats[i], cfg) && is_online(
                nodes,
                seats[i].seat,
            ) && !is_unwanted(seats[i], now) && !declared.contains(seats[i].seat);
        lemma_seat_plan_holds(seats[i], nodes, declared, cfg, now, action);
        lemma_seat_is_planned_for(seats, nodes, declared, cfg, now, action, i);
    }
}

/// A stream is withdrawn exactly where weave holds it and its seat is revoked or expired, whether
/// or not the guest's node is heartbeating: a guest whose page is reloading keeps the stream.
pub proof fn law_when_streams_are_withdrawn(
    seats: Seq<SeatModel>,
    nodes: Map<Seq<char>, NodeFacts>,
    declared: Set<Seq<char>>,
    cfg: ConfigModel,
    now: i64,
    name: Seq<char>,
)
    ensures
        seats_plan(seats, nodes, declared, cfg, now).contains(ActionModel::Withdraw(name)) <==> (
        exists|i: int|
            0 <= i < seats.len() && (#[trigger] seats[i]).seat == name && is_unwanted(
                seats[i],
                now,
            ) && declared.contains(name)),
{
    let plan = seats_plan(seats, nodes, declared, cfg, now);
    let action = ActionModel::Withdraw(name);
    if plan.contains(action) {
        let i = lemma_planned_for_a_seat(seats, nodes, declared, cfg, now, action);
        lemma_seat_plan_holds(seats[i], nodes, declared, cfg, now, action);
        assert(seats[i].seat == name);
    }
    if exists|i: int|
        0 <= i < seats.len() && (#[trigger] seats[i]).seat == name && is_unwanted(seats[i], now)
            && declared.contains(name) {
        let i = choose|i: int|
            0 <= i < seats.len() && (#[trigger] seats[i]).seat == name && is_unwanted(seats[i], now)
                && declared.contains(name);
        lemma_seat_plan_holds(seats[i], nodes, declared, cfg, now, action);
        lemma_seat_is_planned_for(seats, nodes, declared, cfg, now, action, i);
    }
}

/// A seat is forgotten exactly where it is revoked and weave holds no stream for it: while a
/// delete keeps failing the seat stays, and the delete is tried again.
pub proof fn law_when_seats_are_forgotten(
    seats: Seq<SeatModel>,
    nodes: Map<Seq<char>, NodeFacts>,
    declared: Set<Seq<char>>,
    cfg: ConfigModel,
    now: i64,
    name: Seq<char>,
)
    ensures
        seats_plan(seats, nodes, declared, cfg, now).contains(ActionModel::Forget(name)) <==> (
        exists|i: int|
            0 <= i < seats.len() && (#[trigger] seats[i]).seat == name && seats[i].revoked)
            && !declared.contains(name),
{
    let plan = seats_plan(seats, nodes, declared, cfg, now);
    let action = ActionModel::Forget(name);
    if plan.contains(action) {
        let i = lemma_planned_for_a_seat(seats, nodes, declared, cfg, now, action);
        lemma_seat_plan_holds(seats[i], nodes, declared, cfg, now, action);
        assert(seats[i].seat == name);
    }
    if (exists|i: int| 0 <= i < seats.len() && (#[trigger] seats[i]).seat == name && seats[i].revoked)
        && !declared.contains(name) {
        let i = choose|i: int|
            0 <= i < seats.len() && (#[trigger] seats[i]).seat == name && seats[i].revoked;
        lemma_seat_plan_holds(seats[i], nodes, declared, cfg, now, action);
        lemma_seat_is_planned_for(seats, nodes, declared, cfg, now, action, i);
    }
}

/// A guest is noted as seen exactly where the node is heartbeating and the guest was not seen
/// before.
pub proof fn law_when_guests_are_noted(
    seats: Seq<SeatModel>,
    nodes: Map<Seq<char>, NodeFacts>,
    declared: Set<Seq<char>>,
    cfg: ConfigModel,
    now: i64,
    name: Seq<char>,
    at: i64,
)
    ensures
        seats_plan(seats, nodes, declared, cfg, now).contains(ActionModel::Join { seat: name, at })
            <==> at == now && is_online(nodes, name) && (exists|i: int|
            0 <= i < seats.len() && (#[trigger] seats[i]).seat == name && seats[i].joined_at
                is None),
{
    let plan = seats_plan(seats, nodes, declared, cfg, now);
    let action = ActionModel::Join { seat: name, at };
    if plan.contains(action) {
        let i = lemma_planned_for_a_seat(seats, nodes, declared, cfg, now, action);
        lemma_seat_plan_holds(seats[i], nodes, declared, cfg, now, action);
        assert(seats[i].seat == name);
    }
    if at == now && is_online(nodes, name) && (exists|i: int|
        0 <= i < seats.len() && (#[trigger] seats[i]).seat == name && seats[i].joined_at is None) {
        let i = choose|i: int|
            0 <= i < seats.len() && (#[trigger] seats[i]).seat == name && seats[i].joined_at is None;
        lemma_seat_plan_holds(seats[i], nodes, declared, cfg, now, action);
        lemma_seat_is_planned_for(seats, nodes, declared, cfg, now, action, i);
    }
}

/// A plan leaves alone whatever is not a seat of the list: another node's stream is not this
/// gateway's business.
pub proof fn law_plans_keep_to_the_seats(
    seats: Seq<SeatModel>,
    nodes: Map<Seq<char>, NodeFacts>,
    declared: Set<Seq<char>>,
    cfg: ConfigModel,
    now: i64,
    action: ActionModel,
)
    requires
        seats_plan(seats, nodes, declared, cfg, now).contains(action),
    ensures
        exists|i: int| 0 <= i < seats.len() && (#[trigger] seats[i]).seat == on_seat(action),
{
    let i = lemma_planned_for_a_seat(seats, nodes, declared, cfg, now, action);
    lemma_seat_plan_holds(seats[i], nodes, declared, cfg, now, action);
    assert(seats[i].seat == on_seat(action));
}

/// A guest whose node is not heartbeating is not reported as sending, whatever the page said last.
pub proof fn law_the_departed_do_not_send(
    before: SnapshotModel,
    facts: FactsModel,
    seats: Seq<SeatModel>,
    failures: Seq<String>,
    now: i64,
    name: Seq<char>,
)
    requires
        facts.nodes matches Some(nodes) ==> !is_online(nodes, name),
    ensures
        sender_of(concluded(before, facts, seats, failures, now), name) is None,
{
}

/// What the page of a heartbeating guest said last is kept.
pub proof fn law_reports_of_the_present_stay(
    before: SnapshotModel,
    facts: FactsModel,
    seats: Seq<SeatModel>,
    failures: Seq<String>,
    now: i64,
    i: int,
)
    requires
        0 <= i < seats.len(),
        facts.nodes matches Some(nodes) && is_online(nodes, seats[i].seat),
    ensures
        found(concluded(before, facts, seats, failures, now).reported, seats[i].seat) == found(
            before.reported,
            seats[i].seat,
        ),
{
}

/// One seat, one stream: it is named after the seat and comes from the seat's own camera, and a
/// guest who joins again is given the same one.
pub proof fn law_one_seat_one_stream(before: SeatModel, after: SeatModel, cfg: ConfigModel)
    requires
        before.seat == after.seat,
    ensures
        stream_of(after, cfg) == stream_of(before, cfg),
        stream_of(after, cfg).name == after.seat,
        stream_of(after, cfg).source == (TransportModel::Device {
            node: after.seat,
            network: None,
        }),
{
}

// Where the ticks lead.

/// What a plan acts on: the streams that weave holds, and the seats.
pub struct World {
    pub declared: Set<Seq<char>>,
    pub seats: Map<Seq<char>, SeatModel>,
}

/// The world once an action has been carried out.
pub open spec fn performed(world: World, action: ActionModel) -> World {
    match action {
        ActionModel::Declare(stream) => World {
            declared: world.declared.insert(stream.name),
            ..world
        },
        ActionModel::Withdraw(seat) => World { declared: world.declared.remove(seat), ..world },
        ActionModel::Join { seat, at } => World {
            seats: with_joined(world.seats, seat, at),
            ..world
        },
        ActionModel::Forget(seat) => World { seats: world.seats.remove(seat), ..world },
    }
}

/// The world once the actions have been carried out in order.
pub open spec fn performed_all(world: World, plan: Seq<ActionModel>) -> World
    decreases plan.len(),
{
    if plan.len() == 0 {
        world
    } else {
        performed(performed_all(world, plan.drop_last()), plan.last())
    }
}

/// What a tick finds to do.
pub open spec fn due(
    world: World,
    nodes: Map<Seq<char>, NodeFacts>,
    cfg: ConfigModel,
    now: i64,
) -> Seq<ActionModel> {
    seats_plan(listing(world.seats), nodes, world.declared, cfg, now)
}

/// The world after a tick on which everything was answered and nothing failed.
pub open spec fn ticked(
    world: World,
    nodes: Map<Seq<char>, NodeFacts>,
    cfg: ConfigModel,
    now: i64,
) -> World {
    performed_all(world, due(world, nodes, cfg, now))
}

/// Whether weave holds a seat's stream after a tick.
pub open spec fn held_after(
    seat: SeatModel,
    nodes: Map<Seq<char>, NodeFacts>,
    held: bool,
    now: i64,
) -> bool {
    !is_unwanted(seat, now) && (held || is_online(nodes, seat.seat))
}

/// A seat after a tick that does not forget it.
pub open spec fn noted(seat: SeatModel, nodes: Map<Seq<char>, NodeFacts>, now: i64) -> SeatModel {
    if seat.joined_at is None && is_online(nodes, seat.seat) {
        seen(seat, now)
    } else {
        seat
    }
}

/// What becomes of one name: whether weave holds its stream, and its seat.
pub open spec fn at_name(world: World, name: Seq<char>) -> (bool, Option<SeatModel>) {
    (world.declared.contains(name), found(world.seats, name))
}

/// What a tick makes of the name of a seat.
pub open spec fn name_ticked(
    seat: SeatModel,
    held: bool,
    nodes: Map<Seq<char>, NodeFacts>,
    now: i64,
) -> (bool, Option<SeatModel>) {
    (
        held_after(seat, nodes, held, now),
        if seat.revoked && !held {
            None
        } else {
            Some(noted(seat, nodes, now))
        },
    )
}

proof fn lemma_performed_in_parts(world: World, first: Seq<ActionModel>, second: Seq<ActionModel>)
    ensures
        performed_all(world, first + second) == performed_all(
            performed_all(world, first),
            second,
        ),
    decreases second.len(),
{
    if second.len() == 0 {
        assert(first + second =~= first);
    } else {
        assert((first + second).drop_last() =~= first + second.drop_last());
        lemma_performed_in_parts(world, first, second.drop_last());
    }
}

proof fn lemma_performed_only_if(world: World, condition: bool, action: ActionModel)
    ensures
        performed_all(world, only_if(condition, action)) == (if condition {
            performed(world, action)
        } else {
            world
        }),
{
    if condition {
        let one = only_if(condition, action);
        assert(one.drop_last() =~= Seq::<ActionModel>::empty());
        assert(performed_all(world, one.drop_last()) == world);
    }
}

/// The plan of a seat does to the seat's name what a tick is to do, and nothing to other names.
proof fn lemma_seat_plan_performed(
    world: World,
    seat: SeatModel,
    nodes: Map<Seq<char>, NodeFacts>,
    declared: Set<Seq<char>>,
    cfg: ConfigModel,
    now: i64,
    name: Seq<char>,
)
    requires
        world.declared.contains(seat.seat) == declared.contains(seat.seat),
        found(world.seats, seat.seat) == Some(seat),
    ensures
        ({
            let after = performed_all(world, seat_plan(seat, nodes, declared, cfg, now));
            at_name(after, name) == (if name == seat.seat {
                name_ticked(seat, declared.contains(name), nodes, now)
            } else {
                at_name(world, name)
            })
        }),
{
    let online = is_online(nodes, seat.seat);
    let held = declared.contains(seat.seat);
    let unwanted = is_unwanted(seat, now);
    let declare = ActionModel::Declare(stream_of(seat, cfg));
    let withdraw = ActionModel::Withdraw(seat.seat);
    let join = ActionModel::Join { seat: seat.seat, at: now };
    let forget = ActionModel::Forget(seat.seat);
    let a = only_if(online && !unwanted && !held, declare);
    let b = only_if(unwanted && held, withdraw);
    let c = only_if(seat.joined_at is None && online, join);
    let d = only_if(seat.revoked && !held, forget);
    lemma_performed_in_parts(world, a + b + c, d);
    lemma_performed_in_parts(world, a + b, c);
    lemma_performed_in_parts(world, a, b);
    let w1 = performed_all(world, a);
    let w2 = performed_all(w1, b);
    let w3 = performed_all(w2, c);
    lemma_performed_only_if(world, online && !unwanted && !held, declare);
    lemma_performed_only_if(w1, unwanted && held, withdraw);
    lemma_performed_only_if(w2, seat.joined_at is None && online, join);
    lemma_performed_only_if(w3, seat.revoked && !held, forget);
}

/// The plan of a list of seats with different ids does to each seat's name what a tick is to do,
/// and nothing to other names.
proof fn lemma_seats_plan_performed(
    world: World,
    seats: Seq<SeatModel>,
    nodes: Map<Seq<char>, NodeFacts>,
    cfg: ConfigModel,
    now: i64,
    name: Seq<char>,
)
    requires
        forall|i: int, j: int|
            0 <= i < j < seats.len() ==> (#[trigger] seats[i]).seat != (#[trigger] seats[j]).seat,
        forall|i: int|
            0 <= i < seats.len() ==> found(world.seats, (#[trigger] seats[i]).seat) == Some(
                seats[i],
            ),
    ensures
        ({
            let after = performed_all(world, seats_plan(seats, nodes, world.declared, cfg, now));
            at_name(after, name) == (if exists|i: int|
                0 <= i < seats.len() && (#[trigger] seats[i]).seat == name {
                name_ticked(world.seats[name], world.declared.contains(name), nodes, now)
            } else {
                at_name(world, name)
            })
        }),
    decreases seats.len(),
{
    if seats.len() > 0 {
        let rest = seats.drop_last();
        let last = seats.last();
        let first = seats_plan(rest, nodes, world.declared, cfg, now);
        let second = seat_plan(last, nodes, world.declared, cfg, now);
        let between = performed_all(world, first);
        lemma_performed_in_parts(world, first, second);
        assert forall|i: int, j: int| 0 <= i < j < rest.len() implies (#[trigger] rest[i]).seat != (
        #[trigger] rest[j]).seat by {
            assert(seats[i].seat != seats[j].seat);
        }
        assert forall|i: int| 0 <= i < rest.len() implies found(
            world.seats,
            (#[trigger] rest[i]).seat,
        ) == Some(rest[i]) by {
            assert(rest[i] == seats[i]);
        }
        assert(seats[seats.len() - 1] == last);
        assert forall|i: int| 0 <= i < rest.len() implies (#[trigger] rest[i]).seat
            != last.seat by {
            assert(seats[i].seat != seats[seats.len() - 1].seat);
        }
        lemma_seats_plan_performed(world, rest, nodes, cfg, now, last.seat);
        lemma_seats_plan_performed(world, rest, nodes, cfg, now, name);
        assert(at_name(between, last.seat) == at_name(world, last.seat));
        lemma_seat_plan_performed(between, last, nodes, world.declared, cfg, now, name);
        if exists|i: int| 0 <= i < rest.len() && (#[trigger] rest[i]).seat == name {
            let i = choose|i: int| 0 <= i < rest.len() && (#[trigger] rest[i]).seat == name;
            assert(seats[i].seat == name);
        }
        if exists|i: int| 0 <= i < seats.len() && (#[trigger] seats[i]).seat == name {
            let i = choose|i: int| 0 <= i < seats.len() && (#[trigger] seats[i]).seat == name;
            if i < rest.len() {
                assert(rest[i].seat == name);
            }
        }
    }
}

/// What a tick does: the stream and the seat of each name become what `name_ticked` says where
/// there is a seat, and stay as they were where there is none.
pub proof fn law_what_a_tick_does(
    world: World,
    nodes: Map<Seq<char>, NodeFacts>,
    cfg: ConfigModel,
    now: i64,
    name: Seq<char>,
)
    requires
        world.seats.dom().finite(),
        by_own_id(world.seats),
    ensures
        at_name(ticked(world, nodes, cfg, now), name) == (if world.seats.contains_key(name) {
            name_ticked(world.seats[name], world.declared.contains(name), nodes, now)
        } else {
            at_name(world, name)
        }),
{
    let keys = list_keys(world.seats);
    let seats = listing(world.seats);
    law_list_holds_every_seat(world.seats);
    assert forall|i: int| 0 <= i < seats.len() implies (#[trigger] seats[i]).seat == keys[i]
        && found(world.seats, seats[i].seat) == Some(seats[i]) by {
        assert(keys.contains(keys[i]));
        assert(world.seats.contains_key(keys[i]));
    }
    assert forall|i: int, j: int| 0 <= i < j < seats.len() implies (#[trigger] seats[i]).seat != (
    #[trigger] seats[j]).seat by {
        assert(keys[i] != keys[j]);
    }
    lemma_seats_plan_performed(world, seats, nodes, cfg, now, name);
    if world.seats.contains_key(name) {
        let i = keys.index_of(name);
        assert(seats[i].seat == name);
    }
    if exists|i: int| 0 <= i < seats.len() && (#[trigger] seats[i]).seat == name {
        let i = choose|i: int| 0 <= i < seats.len() && (#[trigger] seats[i]).seat == name;
        assert(keys.contains(keys[i]));
        assert(world.seats.contains_key(keys[i]));
    }
}

/// A tick keeps every seat under its id, and adds none.
pub proof fn law_ticks_keep_seats_by_id(
    world: World,
    nodes: Map<Seq<char>, NodeFacts>,
    cfg: ConfigModel,
    now: i64,
)
    requires
        world.seats.dom().finite(),
        by_own_id(world.seats),
    ensures
        ticked(world, nodes, cfg, now).seats.dom().finite(),
        ticked(world, nodes, cfg, now).seats.dom().subset_of(world.seats.dom()),
        by_own_id(ticked(world, nodes, cfg, now).seats),
{
    let after = ticked(world, nodes, cfg, now);
    assert forall|name: Seq<char>| #[trigger] after.seats.contains_key(name) implies
        world.seats.contains_key(name) && after.seats[name].seat == name by {
        law_what_a_tick_does(world, nodes, cfg, now, name);
        assert(at_name(after, name).1 is Some);
    }
    assert(after.seats.dom().subset_of(world.seats.dom())) by {
        assert forall|name: Seq<char>| #[trigger] after.seats.dom().contains(name) implies
            world.seats.dom().contains(name) by {
            assert(after.seats.contains_key(name));
        }
    }
    vstd::set_lib::lemma_set_subset_finite(world.seats.dom(), after.seats.dom());
}

/// The loop converges. While the guests' nodes stay as they are, two ticks on which everything is
/// answered and nothing fails leave nothing to do: the first settles the streams, and the second
/// forgets the revoked seats whose streams the first withdrew. So it does not matter how often, or
/// how late, the loop is nudged.
pub proof fn law_ticks_converge(
    world: World,
    nodes: Map<Seq<char>, NodeFacts>,
    cfg: ConfigModel,
    now: i64,
)
    requires
        world.seats.dom().finite(),
        by_own_id(world.seats),
    ensures
        ({
            let once = ticked(world, nodes, cfg, now);
            let twice = ticked(once, nodes, cfg, now);
            &&& due(twice, nodes, cfg, now) == Seq::<ActionModel>::empty()
            &&& forall|name: Seq<char>| #[trigger]
                twice.declared.contains(name) == once.declared.contains(name)
            &&& forall|name: Seq<char>| #[trigger]
                twice.seats.contains_key(name) <==> world.seats.contains_key(name)
                    && !world.seats[name].revoked
        }),
{
    let once = ticked(world, nodes, cfg, now);
    let twice = ticked(once, nodes, cfg, now);
    law_ticks_keep_seats_by_id(world, nodes, cfg, now);
    law_ticks_keep_seats_by_id(once, nodes, cfg, now);
    assert forall|name: Seq<char>| #[trigger]
        twice.declared.contains(name) == once.declared.contains(name) by {
        law_what_a_tick_does(world, nodes, cfg, now, name);
        law_what_a_tick_does(once, nodes, cfg, now, name);
    }
    assert forall|name: Seq<char>| #[trigger]
        twice.seats.contains_key(name) <==> world.seats.contains_key(name)
            && !world.seats[name].revoked by {
        law_what_a_tick_does(world, nodes, cfg, now, name);
        law_what_a_tick_does(once, nodes, cfg, now, name);
        assert(at_name(once, name).1 is Some <==> once.seats.contains_key(name));
        assert(at_name(twice, name).1 is Some <==> twice.seats.contains_key(name));
    }
    let plan = due(twice, nodes, cfg, now);
    if plan.len() > 0 {
        let action = plan[0];
        assert(plan.contains(action));
        let seats = listing(twice.seats);
        let i = lemma_planned_for_a_seat(seats, nodes, twice.declared, cfg, now, action);
        lemma_seat_plan_holds(seats[i], nodes, twice.declared, cfg, now, action);
        law_list_holds_every_seat(twice.seats);
        let name = list_keys(twice.seats)[i];
        assert(list_keys(twice.seats).contains(name));
        assert(twice.seats.contains_key(name));
        law_what_a_tick_does(world, nodes, cfg, now, name);
        law_what_a_tick_does(once, nodes, cfg, now, name);
        assert(at_name(once, name).1 is Some <==> once.seats.contains_key(name));
        assert(at_name(twice, name).1 == Some(seats[i]));
        assert(false);
    }
    assert(plan =~= Seq::<ActionModel>::empty());
}

} // verus!
