//! What a tick makes of what it found, what it does, and what it leaves.
use vstd::prelude::*;

use crate::clock::shown;
use crate::config::ConfigModel;
use crate::live::Source;
use crate::reconcile::{
    by_id, by_name, by_seat, concluded, facts_of, plan_of, seat_plan, seats_plan,
    with_joined, ActionModel, FactsModel, Findings,
};
use crate::seat::SeatModel;
use crate::snapshot::{NodeFacts, SnapshotModel};
use crate::text::{lemma_parted_at_first, parted_at_first};
use crate::weave::{NodeStatus, StreamModel, StreamStatus};

use super::texts::{law_only_given_names_are_collected, law_the_last_pair_stays};

verus! {

/// Weave hears a heartbeat of the node of this id.
pub open spec fn heartbeats(nodes: Map<Seq<char>, NodeFacts>, id: Seq<char>) -> bool {
    nodes.contains_key(id) && (nodes[id].status == NodeStatus::Ready || nodes[id].status
        == NodeStatus::Degraded)
}

/// The seat is neither revoked nor past its expiry.
pub open spec fn is_in_use(seat: SeatModel, now: i64) -> bool {
    !seat.revoked && now < seat.expires_at
}

/// The stream from a seat's camera to the target of the configuration.
pub open spec fn is_camera_to_target(
    stream: StreamModel,
    seat: SeatModel,
    cfg: ConfigModel,
) -> bool {
    &&& stream.name == seat.seat
    &&& stream.enabled
    &&& stream.source is Device
    &&& stream.source->Device_node == seat.seat
    &&& stream.source->Device_network is None
    &&& stream.destinations.len() == 1
    &&& stream.destinations[0] is Srt
    &&& stream.destinations[0]->Srt_node == cfg.target_node
    &&& stream.destinations[0]->Srt_network == cfg.target_network
    &&& stream.destinations[0]->latency == cfg.target_latency_ms
}

/// Every stream that a tick declares is enabled, comes from the camera of a seat in use whose node
/// heartbeats and whose stream weave does not hold, and goes to one place: by SRT to the configured
/// node, in the configured network, with the configured latency.
pub proof fn law_declared_streams_go_to_the_target(
    seats: Seq<SeatModel>,
    facts: FactsModel,
    cfg: ConfigModel,
    now: i64,
    k: int,
)
    requires
        0 <= k < plan_of(seats, facts, cfg, now).len(),
        plan_of(seats, facts, cfg, now)[k] is Declare,
    ensures
        ({
            let stream = plan_of(seats, facts, cfg, now)[k]->Declare_0;
            &&& stream.enabled
            &&& stream.destinations.len() == 1
            &&& stream.destinations[0] is Srt
            &&& stream.destinations[0]->Srt_node == cfg.target_node
            &&& stream.destinations[0]->Srt_network == cfg.target_network
            &&& stream.destinations[0]->latency == cfg.target_latency_ms
            &&& exists|i: int|
                0 <= i < seats.len() && is_camera_to_target(stream, #[trigger] seats[i], cfg)
                    && is_in_use(seats[i], now) && heartbeats(facts.nodes->0, seats[i].seat)
                    && !facts.declared->0.contains(seats[i].seat)
        }),
{
    let nodes = facts.nodes->0;
    let declared = facts.declared->0;
    lemma_declares(seats, nodes, declared, cfg, now, k);
}

proof fn lemma_declares(
    seats: Seq<SeatModel>,
    nodes: Map<Seq<char>, NodeFacts>,
    declared: Set<Seq<char>>,
    cfg: ConfigModel,
    now: i64,
    k: int,
)
    requires
        0 <= k < seats_plan(seats, nodes, declared, cfg, now).len(),
        seats_plan(seats, nodes, declared, cfg, now)[k] is Declare,
    ensures
        exists|i: int|
            0 <= i < seats.len() && is_camera_to_target(
                seats_plan(seats, nodes, declared, cfg, now)[k]->Declare_0,
                #[trigger] seats[i],
                cfg,
            ) && is_in_use(seats[i], now) && heartbeats(nodes, seats[i].seat) && !declared.contains(
                seats[i].seat,
            ),
    decreases seats.len(),
{
    let earlier = seats_plan(seats.drop_last(), nodes, declared, cfg, now);
    let whole = seats_plan(seats, nodes, declared, cfg, now);
    if k < earlier.len() {
        lemma_declares(seats.drop_last(), nodes, declared, cfg, now, k);
        let i = choose|i: int|
            0 <= i < seats.drop_last().len() && is_camera_to_target(
                earlier[k]->Declare_0,
                #[trigger] seats.drop_last()[i],
                cfg,
            ) && is_in_use(seats.drop_last()[i], now) && heartbeats(
                nodes,
                seats.drop_last()[i].seat,
            ) && !declared.contains(seats.drop_last()[i].seat);
        assert(seats[i] == seats.drop_last()[i]);
        assert(whole[k] == earlier[k]);
    } else {
        let last = seats[seats.len() - 1];
        law_the_plan_of_one_seat(last, nodes, declared, cfg, now);
        assert(seats_plan(seq![last], nodes, declared, cfg, now) =~= seat_plan(
            last,
            nodes,
            declared,
            cfg,
            now,
        )) by {
            assert(seq![last].drop_last() =~= Seq::<SeatModel>::empty());
        }
        assert(whole[k] == seat_plan(last, nodes, declared, cfg, now)[k - earlier.len()]);
        assert(is_camera_to_target(whole[k]->Declare_0, last, cfg));
    }
}

/// What a tick does about one seat, in this order: its stream is declared where the seat is in use,
/// its node heartbeats and weave does not hold the stream; it is withdrawn where weave holds it and
/// the seat is not in use; the guest is noted where the node heartbeats and the guest was not seen
/// before; and the seat is forgotten where it is revoked and weave holds no stream for it.
pub proof fn law_the_plan_of_one_seat(
    seat: SeatModel,
    nodes: Map<Seq<char>, NodeFacts>,
    declared: Set<Seq<char>>,
    cfg: ConfigModel,
    now: i64,
)
    ensures
        ({
            let plan = seats_plan(seq![seat], nodes, declared, cfg, now);
            let held = declared.contains(seat.seat);
            let declares = heartbeats(nodes, seat.seat) && is_in_use(seat, now) && !held;
            let withdraws = !is_in_use(seat, now) && held;
            let notes = heartbeats(nodes, seat.seat) && seat.joined_at is None;
            let forgets = seat.revoked && !held;
            let first: int = if declares || withdraws {
                1
            } else {
                0
            };
            let second: int = if notes {
                first + 1
            } else {
                first
            };
            &&& plan.len() == (if forgets {
                second + 1
            } else {
                second
            })
            &&& declares ==> plan[0] is Declare && is_camera_to_target(
                plan[0]->Declare_0,
                seat,
                cfg,
            )
            &&& withdraws ==> plan[0] == ActionModel::Withdraw(seat.seat)
            &&& notes ==> plan[first] == (ActionModel::Join { seat: seat.seat, at: now })
            &&& forgets ==> plan[second] == ActionModel::Forget(seat.seat)
        }),
{
    assert(seq![seat].drop_last() =~= Seq::<SeatModel>::empty());
    assert(seats_plan(seq![seat].drop_last(), nodes, declared, cfg, now)
        =~= Seq::<ActionModel>::empty());
    assert(seats_plan(seq![seat], nodes, declared, cfg, now) =~= seat_plan(
        seat,
        nodes,
        declared,
        cfg,
        now,
    ));
}

/// Seats are seen to one after the other, in the order of the list.
pub proof fn law_plans_add_up(
    first: Seq<SeatModel>,
    second: Seq<SeatModel>,
    nodes: Map<Seq<char>, NodeFacts>,
    declared: Set<Seq<char>>,
    cfg: ConfigModel,
    now: i64,
)
    ensures
        seats_plan(Seq::empty(), nodes, declared, cfg, now).len() == 0,
        seats_plan(first + second, nodes, declared, cfg, now) == seats_plan(
            first,
            nodes,
            declared,
            cfg,
            now,
        ) + seats_plan(second, nodes, declared, cfg, now),
    decreases second.len(),
{
    if second.len() == 0 {
        assert(first + second =~= first);
        assert(seats_plan(first, nodes, declared, cfg, now) =~= seats_plan(
            first,
            nodes,
            declared,
            cfg,
            now,
        ) + seats_plan(second, nodes, declared, cfg, now));
    } else {
        law_plans_add_up(first, second.drop_last(), nodes, declared, cfg, now);
        assert((first + second).drop_last() =~= first + second.drop_last());
        assert(seats_plan(first + second, nodes, declared, cfg, now) =~= seats_plan(
            first,
            nodes,
            declared,
            cfg,
            now,
        ) + seats_plan(second, nodes, declared, cfg, now));
    }
}

/// The plan is that of the seats where weave answered for its nodes and its streams, and else
/// nothing.
pub proof fn law_plans_need_both_answers(
    seats: Seq<SeatModel>,
    facts: FactsModel,
    cfg: ConfigModel,
    now: i64,
)
    ensures
        facts.nodes is Some && facts.declared is Some ==> plan_of(seats, facts, cfg, now)
            == seats_plan(seats, facts.nodes->0, facts.declared->0, cfg, now),
        facts.nodes is None || facts.declared is None ==> plan_of(seats, facts, cfg, now).len()
            == 0,
{
}

/// Noting a guest sets when the guest was seen, and changes nothing else of the seat, nor any
/// other seat.
pub proof fn law_noting_a_guest(
    store: Map<Seq<char>, SeatModel>,
    seat: Seq<char>,
    at: i64,
    other: Seq<char>,
)
    ensures
        ({
            let after = with_joined(store, seat, at);
            &&& after.contains_key(other) <==> store.contains_key(other)
            &&& other != seat && store.contains_key(other) ==> after[other] == store[other]
            &&& store.contains_key(seat) ==> after[seat].joined_at == Some(at) && after[seat].seat
                == store[seat].seat && after[seat].display_name == store[seat].display_name
                && after[seat].token == store[seat].token && after[seat].created_at
                == store[seat].created_at && after[seat].expires_at == store[seat].expires_at
                && after[seat].revoked == store[seat].revoked
        }),
{
}

/// A source shows a seat exactly where it is weave's and its external id is the seat's, or the
/// seat's with a slash behind it and anything more; the seat is what stands before the first slash.
pub proof fn law_which_seat_a_source_shows(source: Source, seat: Seq<char>)
    ensures
        source.seat_name() == Some(seat) <==> source.provider is Some && (
        source.provider->0).id@ == "weave"@ && !seat.contains('/') && ((
        source.provider->0).external_id@ == seat || exists|rest: Seq<char>|
            (source.provider->0).external_id@ == #[trigger] (seat + seq!['/'] + rest)),
{
    if source.provider is Some {
        let id = (source.provider->0).external_id@;
        lemma_parted_at_first(id, '/');
        if source.seat_name() == Some(seat) && parted_at_first(id, '/') is Some {
            let rest = (parted_at_first(id, '/')->0).1;
            assert(id == seat + seq!['/'] + rest);
        }
        if !seat.contains('/') && exists|rest: Seq<char>|
            id == #[trigger] (seat + seq!['/'] + rest) {
            let rest = choose|rest: Seq<char>| id == #[trigger] (seat + seq!['/'] + rest);
            assert(parted_at_first(id, '/') == Some((seat, rest)));
        }
    }
}

proof fn lemma_node_stays(nodes: Seq<(String, NodeStatus)>, i: int)
    requires
        0 <= i < nodes.len(),
        forall|j: int| i < j < nodes.len() ==> (#[trigger] nodes[j]).0@ != nodes[i].0@,
    ensures
        by_id(nodes).contains_key(nodes[i].0@),
        by_id(nodes)[nodes[i].0@].status == nodes[i].1,
{
    let pairs = nodes.map_values(
        |node: (String, NodeStatus)| (node.0, NodeFacts { status: node.1 }),
    );
    assert forall|j: int| i < j < pairs.len() implies (#[trigger] pairs[j]).0@ != pairs[i].0@ by {
        assert(nodes[j].0@ != nodes[i].0@);
    }
    law_the_last_pair_stays(pairs, i);
}

proof fn lemma_no_other_node(nodes: Seq<(String, NodeStatus)>, name: Seq<char>)
    requires
        forall|i: int| 0 <= i < nodes.len() ==> (#[trigger] nodes[i]).0@ != name,
    ensures
        !by_id(nodes).contains_key(name),
{
    let pairs = nodes.map_values(
        |node: (String, NodeStatus)| (node.0, NodeFacts { status: node.1 }),
    );
    assert forall|i: int| 0 <= i < pairs.len() implies (#[trigger] pairs[i]).0@ != name by {
        assert(nodes[i].0@ != name);
    }
    law_only_given_names_are_collected(pairs, name);
}

proof fn lemma_stream_stays(streams: Seq<StreamStatus>, i: int)
    requires
        0 <= i < streams.len(),
        forall|j: int| i < j < streams.len() ==> (#[trigger] streams[j]).name@ != streams[i].name@,
    ensures
        by_name(streams).contains_key(streams[i].name@),
        by_name(streams)[streams[i].name@] == streams[i],
    decreases streams.len(),
{
    if i < streams.len() - 1 {
        assert(streams[streams.len() - 1].name@ != streams[i].name@);
        lemma_stream_stays(streams.drop_last(), i);
    }
}

proof fn lemma_no_other_stream(streams: Seq<StreamStatus>, name: Seq<char>)
    requires
        forall|i: int| 0 <= i < streams.len() ==> (#[trigger] streams[i]).name@ != name,
    ensures
        !by_name(streams).contains_key(name),
    decreases streams.len(),
{
    if streams.len() > 0 {
        let rest = streams.drop_last();
        assert forall|i: int| 0 <= i < rest.len() implies (#[trigger] rest[i]).name@ != name by {
            assert(streams[i].name@ != name);
        }
        lemma_no_other_stream(rest, name);
        assert(streams[streams.len() - 1].name@ != name);
    }
}

proof fn lemma_source_stays(sources: Seq<Source>, i: int, seat: Seq<char>)
    requires
        0 <= i < sources.len(),
        sources[i].seat_name() == Some(seat),
        forall|j: int| i < j < sources.len() ==> (#[trigger] sources[j]).seat_name() != Some(seat),
    ensures
        by_seat(sources).contains_key(seat),
        by_seat(sources)[seat] == sources[i],
    decreases sources.len(),
{
    if i < sources.len() - 1 {
        assert(sources[sources.len() - 1].seat_name() != Some(seat));
        lemma_source_stays(sources.drop_last(), i, seat);
    }
}

proof fn lemma_no_other_source(sources: Seq<Source>, seat: Seq<char>)
    requires
        forall|i: int| 0 <= i < sources.len() ==> (#[trigger] sources[i]).seat_name() != Some(seat),
    ensures
        !by_seat(sources).contains_key(seat),
    decreases sources.len(),
{
    if sources.len() > 0 {
        let rest = sources.drop_last();
        assert forall|i: int| 0 <= i < rest.len() implies (#[trigger] rest[i]).seat_name() != Some(
            seat,
        ) by {
            assert(sources[i].seat_name() != Some(seat));
        }
        lemma_no_other_source(rest, seat);
        assert(sources[sources.len() - 1].seat_name() != Some(seat));
    }
}

/// The nodes after a tick are those that weave answered: of each id the last, and no other id,
/// whatever was known before.
pub proof fn law_nodes_are_those_answered(
    before: SnapshotModel,
    findings: Findings,
    seats: Seq<SeatModel>,
    failures: Seq<String>,
    now: i64,
    name: Seq<char>,
)
    ensures
        ({
            let after = concluded(before, facts_of(findings), seats, failures, now).nodes;
            &&& findings.nodes is Err ==> !after.contains_key(name) && facts_of(findings).nodes
                is None
            &&& findings.nodes matches Ok(nodes) ==> facts_of(findings).nodes == Some(after) && (
            after.contains_key(name) <==> exists|i: int|
                0 <= i < nodes@.len() && (#[trigger] nodes@[i]).0@ == name) && (forall|i: int|
                #![trigger nodes@[i]]
                0 <= i < nodes@.len() && nodes@[i].0@ == name && (forall|j: int|
                    i < j < nodes@.len() ==> (#[trigger] nodes@[j]).0@ != name)
                    ==> after[name].status == nodes@[i].1)
        }),
{
    if let Ok(nodes) = findings.nodes {
        if exists|i: int| 0 <= i < nodes@.len() && (#[trigger] nodes@[i]).0@ == name {
            let i = last_node(nodes@, name);
            lemma_node_stays(nodes@, i);
            assert forall|k: int|
                #![trigger nodes@[k]]
                0 <= k < nodes@.len() && nodes@[k].0@ == name && (forall|j: int|
                    k < j < nodes@.len() ==> (#[trigger] nodes@[j]).0@ != name) implies by_id(
                nodes@,
            )[name].status == nodes@[k].1 by {
                lemma_node_stays(nodes@, k);
            }
        } else {
            lemma_no_other_node(nodes@, name);
        }
    }
}

proof fn last_node(nodes: Seq<(String, NodeStatus)>, name: Seq<char>) -> (i: int)
    requires
        exists|i: int| 0 <= i < nodes.len() && (#[trigger] nodes[i]).0@ == name,
    ensures
        0 <= i < nodes.len(),
        nodes[i].0@ == name,
        forall|j: int| i < j < nodes.len() ==> (#[trigger] nodes[j]).0@ != name,
    decreases nodes.len(),
{
    let end = nodes.len() - 1;
    if nodes[end].0@ == name {
        end
    } else {
        let rest = nodes.drop_last();
        let k = choose|i: int| 0 <= i < nodes.len() && (#[trigger] nodes[i]).0@ == name;
        assert(rest[k].0@ == name);
        let i = last_node(rest, name);
        assert forall|j: int| i < j < nodes.len() implies (#[trigger] nodes[j]).0@ != name by {
            if j < end {
                assert(rest[j].0@ != name);
            }
        }
        i
    }
}

/// The streams after a tick are those that weave answered: of each name the last, and no other
/// name, whatever was known before.
pub proof fn law_streams_are_those_answered(
    before: SnapshotModel,
    findings: Findings,
    seats: Seq<SeatModel>,
    failures: Seq<String>,
    now: i64,
    name: Seq<char>,
)
    ensures
        ({
            let after = concluded(before, facts_of(findings), seats, failures, now).streams;
            &&& findings.status is Err ==> !after.contains_key(name)
            &&& findings.status matches Ok(rollup) ==> (after.contains_key(name) <==> exists|i: int|
                0 <= i < rollup.streams@.len() && (#[trigger] rollup.streams@[i]).name@ == name)
                && (forall|i: int|
                #![trigger rollup.streams@[i]]
                0 <= i < rollup.streams@.len() && rollup.streams@[i].name@ == name && (forall|
                    j: int,
                |
                    i < j < rollup.streams@.len() ==> (#[trigger] rollup.streams@[j]).name@ != name)
                    ==> after[name] == rollup.streams@[i])
        }),
{
    if let Ok(rollup) = findings.status {
        let streams = rollup.streams@;
        if exists|i: int| 0 <= i < streams.len() && (#[trigger] streams[i]).name@ == name {
            let i = last_stream(streams, name);
            lemma_stream_stays(streams, i);
            assert forall|k: int|
                #![trigger streams[k]]
                0 <= k < streams.len() && streams[k].name@ == name && (forall|j: int|
                    k < j < streams.len() ==> (#[trigger] streams[j]).name@ != name) implies by_name(
                streams,
            )[name] == streams[k] by {
                lemma_stream_stays(streams, k);
            }
        } else {
            lemma_no_other_stream(streams, name);
        }
    }
}

proof fn last_stream(streams: Seq<StreamStatus>, name: Seq<char>) -> (i: int)
    requires
        exists|i: int| 0 <= i < streams.len() && (#[trigger] streams[i]).name@ == name,
    ensures
        0 <= i < streams.len(),
        streams[i].name@ == name,
        forall|j: int| i < j < streams.len() ==> (#[trigger] streams[j]).name@ != name,
    decreases streams.len(),
{
    let end = streams.len() - 1;
    if streams[end].name@ == name {
        end
    } else {
        let rest = streams.drop_last();
        let k = choose|i: int| 0 <= i < streams.len() && (#[trigger] streams[i]).name@ == name;
        assert(rest[k].name@ == name);
        let i = last_stream(rest, name);
        assert forall|j: int| i < j < streams.len() implies (#[trigger] streams[j]).name@
            != name by {
            if j < end {
                assert(rest[j].name@ != name);
            }
        }
        i
    }
}

/// The sources after a tick are those that open-live answered: for each seat the last that shows
/// it, and none for a seat that none shows, whatever was known before.
pub proof fn law_sources_are_those_answered(
    before: SnapshotModel,
    findings: Findings,
    seats: Seq<SeatModel>,
    failures: Seq<String>,
    now: i64,
    seat: Seq<char>,
)
    ensures
        ({
            let after = concluded(before, facts_of(findings), seats, failures, now).sources;
            &&& findings.sources is None || findings.sources->0 is Err ==> !after.contains_key(seat)
            &&& findings.sources matches Some(Ok(sources)) ==> (after.contains_key(seat)
                <==> exists|i: int|
                0 <= i < sources@.len() && (#[trigger] sources@[i]).seat_name() == Some(seat)) && (
            forall|i: int|
                #![trigger sources@[i]]
                0 <= i < sources@.len() && sources@[i].seat_name() == Some(seat) && (forall|j: int|
                    i < j < sources@.len() ==> (#[trigger] sources@[j]).seat_name() != Some(seat))
                    ==> after[seat] == sources@[i])
        }),
{
    if let Some(Ok(sources)) = findings.sources {
        if exists|i: int|
            0 <= i < sources@.len() && (#[trigger] sources@[i]).seat_name() == Some(seat) {
            let i = last_source(sources@, seat);
            lemma_source_stays(sources@, i, seat);
            assert forall|k: int|
                #![trigger sources@[k]]
                0 <= k < sources@.len() && sources@[k].seat_name() == Some(seat) && (forall|j: int|
                    k < j < sources@.len() ==> (#[trigger] sources@[j]).seat_name() != Some(
                        seat,
                    )) implies by_seat(sources@)[seat] == sources@[k] by {
                lemma_source_stays(sources@, k, seat);
            }
        } else {
            lemma_no_other_source(sources@, seat);
        }
    }
}

proof fn last_source(sources: Seq<Source>, seat: Seq<char>) -> (i: int)
    requires
        exists|i: int| 0 <= i < sources.len() && (#[trigger] sources[i]).seat_name() == Some(seat),
    ensures
        0 <= i < sources.len(),
        sources[i].seat_name() == Some(seat),
        forall|j: int| i < j < sources.len() ==> (#[trigger] sources[j]).seat_name() != Some(seat),
    decreases sources.len(),
{
    let end = sources.len() - 1;
    if sources[end].seat_name() == Some(seat) {
        end
    } else {
        let rest = sources.drop_last();
        let k = choose|i: int|
            0 <= i < sources.len() && (#[trigger] sources[i]).seat_name() == Some(seat);
        assert(rest[k].seat_name() == Some(seat));
        let i = last_source(rest, seat);
        assert forall|j: int| i < j < sources.len() implies (#[trigger] sources[j]).seat_name()
            != Some(seat) by {
            if j < end {
                assert(rest[j].seat_name() != Some(seat));
            }
        }
        i
    }
}

/// The streams that weave is taken to hold are those that it named, where it answered.
pub proof fn law_held_streams_are_those_named(findings: Findings, name: Seq<char>)
    ensures
        findings.declared is Err ==> facts_of(findings).declared is None,
        findings.declared matches Ok(names) ==> facts_of(findings).declared is Some && (facts_of(
            findings,
        ).declared->0.contains(name) <==> exists|i: int|
            0 <= i < names@.len() && (#[trigger] names@[i])@ == name),
{
    if let Ok(names) = findings.declared {
        super::texts::law_lists_hold_their_names(names@, name);
    }
}

/// The errors after a tick are those of the questions, in the order nodes, streams, status,
/// sources, and behind them those of carrying out the plan; and the time is the tick's.
pub proof fn law_what_else_a_tick_leaves(
    before: SnapshotModel,
    findings: Findings,
    seats: Seq<SeatModel>,
    failures: Seq<String>,
    now: i64,
)
    ensures
        ({
            let after = concluded(before, facts_of(findings), seats, failures, now);
            &&& after.reconciled_at == shown(now)
            &&& after.errors == (if findings.nodes is Err {
                seq![findings.nodes->Err_0]
            } else {
                Seq::empty()
            }) + (if findings.declared is Err {
                seq![findings.declared->Err_0]
            } else {
                Seq::empty()
            }) + (if findings.status is Err {
                seq![findings.status->Err_0]
            } else {
                Seq::empty()
            }) + (if findings.sources is Some && findings.sources->0 is Err {
                seq![findings.sources->0->Err_0]
            } else {
                Seq::empty()
            }) + failures
        }),
{
}

/// What a page reported is kept exactly while a seat of the list has that id and its node
/// heartbeats.
pub proof fn law_which_reports_are_kept(
    before: SnapshotModel,
    facts: FactsModel,
    seats: Seq<SeatModel>,
    failures: Seq<String>,
    now: i64,
    name: Seq<char>,
)
    ensures
        ({
            let after = concluded(before, facts, seats, failures, now).reported;
            &&& after.contains_key(name) <==> before.reported.contains_key(name) && facts.nodes
                is Some && heartbeats(facts.nodes->0, name) && exists|i: int|
                0 <= i < seats.len() && (#[trigger] seats[i]).seat == name
            &&& after.contains_key(name) ==> after[name] == before.reported[name]
        }),
{
}

/// What a tick publishes is what its facts hold, where any are known.
pub proof fn law_facts_are_published(
    before: SnapshotModel,
    facts: FactsModel,
    seats: Seq<SeatModel>,
    failures: Seq<String>,
    now: i64,
)
    ensures
        ({
            let after = concluded(before, facts, seats, failures, now);
            &&& facts.nodes is Some ==> after.nodes == facts.nodes->0
            &&& facts.nodes is None ==> after.nodes == Map::<Seq<char>, NodeFacts>::empty()
            &&& after.streams == facts.streams
            &&& after.sources == facts.sources
            &&& after.errors == facts.errors + failures
        }),
{
}

} // verus!
