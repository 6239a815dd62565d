//! What the models hold: each field as it stands in the value that is modelled.
use vstd::prelude::*;

use crate::config::Config;
use crate::invite::Invite;
use crate::names::NameMap;
use crate::reconcile::{actions, known, Action, ActionModel, Facts};
use crate::routes::{views, ApiError, SessionResponse};
use crate::seat::{models, Seat, SeatModel};
use crate::snapshot::{behind, found, steps, NodeFacts, SeatView, Snapshot, Step};
use crate::text::text_of;
use crate::weave::{
    str_of, Call, NodeDescriptor, NodeStatus, StreamDefinition, StreamTransport, TransportModel,
};

verus! {

/// An optional text is modelled by its characters, and is there exactly where it is given.
pub proof fn law_optional_texts_are_modelled_as_given(text: String, by_reference: &str)
    ensures
        text_of(Some(text)) == Some(text@),
        text_of(None) == None::<Seq<char>>,
        str_of(Some(by_reference)) == Some(by_reference@),
        str_of(None) == None::<Seq<char>>,
{
}

/// What is found under a name is what the map holds there, and nothing where it holds nothing.
pub proof fn law_what_is_found_is_what_is_held<V>(
    map: Map<Seq<char>, V>,
    name: Seq<char>,
    value: &V,
)
    ensures
        map.contains_key(name) ==> found(map, name) == Some(map[name]),
        !map.contains_key(name) ==> found(map, name) == None::<V>,
        behind(Some(value)) == Some(*value),
        behind(None::<&V>) == None::<V>,
{
}

/// A seat's model holds each field of the seat.
pub proof fn law_seats_are_modelled_as_they_stand(seat: Seat)
    ensures
        seat@.seat == seat.seat@,
        seat@.display_name == seat.display_name@,
        seat@.token == seat.token@,
        seat@.created_at == seat.created_at,
        seat@.expires_at == seat.expires_at,
        seat@.revoked == seat.revoked,
        seat@.joined_at == seat.joined_at,
{
}

/// A seat has expired from its expiry on.
pub proof fn law_seats_expire_at_their_expiry(seat: SeatModel, now: i64)
    ensures
        seat.expired(now) <==> seat.expires_at <= now,
{
}

/// A node is online while it is ready or degraded.
pub proof fn law_which_nodes_are_online(status: NodeStatus)
    ensures
        status.is_online() <==> status == NodeStatus::Ready || status == NodeStatus::Degraded,
        status.is_online() <==> status != NodeStatus::Offline && status != NodeStatus::Unknown,
{
}

/// A configuration's model holds each of its values.
pub proof fn law_configurations_are_modelled_as_they_stand(cfg: Config)
    ensures
        cfg@.public_url == cfg.public_url@,
        cfg@.signing_key == cfg.signing_key@,
        cfg@.webhook_token == text_of(cfg.webhook_token),
        cfg@.reconcile_secs == cfg.reconcile_secs,
        cfg@.invite_ttl_secs == cfg.invite_ttl_secs,
        cfg@.target_node == cfg.target_node@,
        cfg@.target_network == text_of(cfg.target_network),
        cfg@.target_latency_ms == cfg.target_latency_ms,
        cfg@.northbound_url == cfg.northbound_url@,
        cfg@.northbound_token == text_of(cfg.northbound_token),
        cfg@.southbound_url == cfg.southbound_url@,
        cfg@.southbound_token == text_of(cfg.southbound_token),
        cfg@.open_live_url == text_of(cfg.open_live_url),
        cfg@.open_live_api_key == text_of(cfg.open_live_api_key),
{
}

/// An invite's model holds what the invite claims.
pub proof fn law_invites_are_modelled_as_they_stand(invite: Invite)
    ensures
        invite@.seat == invite.seat@,
        invite@.expires_at == invite.expires_at,
{
}

/// A snapshot's model holds each of its maps, its errors and its time.
pub proof fn law_snapshots_are_modelled_as_they_stand(snapshot: Snapshot)
    ensures
        snapshot@.reconciled_at == snapshot.reconciled_at@,
        snapshot@.nodes == snapshot.nodes@,
        snapshot@.streams == snapshot.streams@,
        snapshot@.sources == snapshot.sources@,
        snapshot@.reported == snapshot.reported@,
        snapshot@.errors == snapshot.errors@,
{
}

/// The model of what a tick knows holds each of its maps, the names that weave holds, and the
/// errors.
pub proof fn law_facts_are_modelled_as_they_stand(facts: Facts, nodes: NameMap<NodeFacts>)
    ensures
        facts@.nodes == known(facts.nodes),
        known(Some(nodes)) == Some(nodes@),
        known(None) == None::<Map<Seq<char>, NodeFacts>>,
        facts@.declared is Some <==> facts.declared is Some,
        facts.declared matches Some(names) ==> forall|name: Seq<char>| #[trigger]
            facts@.declared->0.contains(name) <==> exists|i: int|
                0 <= i < names@.len() && (#[trigger] names@[i])@ == name,
        facts@.streams == facts.streams@,
        facts@.sources == facts.sources@,
        facts@.errors == facts.errors@,
{
    if let Some(names) = facts.declared {
        assert forall|name: Seq<char>| #[trigger]
            facts@.declared->0.contains(name) <==> exists|i: int|
                0 <= i < names@.len() && (#[trigger] names@[i])@ == name by {
            super::texts::law_lists_hold_their_names(names@, name);
        }
    }
}

/// The models of what the pages are told hold each field, and each step in its place.
pub proof fn law_views_are_modelled_as_they_stand(view: SeatView, told: SessionResponse, step: Step)
    ensures
        view@.seat == view.seat@,
        view@.display_name == view.display_name@,
        view@.join_url == view.join_url@,
        view@.created_at == view.created_at@,
        view@.expires_at == view.expires_at@,
        view@.stage == view.stage@,
        view@.chain.len() == view.chain@.len(),
        forall|i: int| 0 <= i < view.chain@.len() ==> #[trigger] view@.chain[i] == view.chain@[i]@,
        told@.seat == told.seat@,
        told@.display_name == told.display_name@,
        told@.expires_at == told.expires_at@,
        told@.stage == told.stage@,
        told@.chain.len() == told.chain@.len(),
        forall|i: int| 0 <= i < told.chain@.len() ==> #[trigger] told@.chain[i] == told.chain@[i]@,
        step@.step == step.step@,
        step@.state == step.state,
        step@.detail == text_of(step.detail),
{
}

/// The model of a list holds the model of each of its items, in its place.
pub proof fn law_lists_are_modelled_one_by_one(
    seats: Seq<Seat>,
    chain: Seq<Step>,
    shown: Seq<SeatView>,
    plan: Seq<Action>,
)
    ensures
        models(seats).len() == seats.len(),
        forall|i: int| 0 <= i < seats.len() ==> #[trigger] models(seats)[i] == seats[i]@,
        steps(chain).len() == chain.len(),
        forall|i: int| 0 <= i < chain.len() ==> #[trigger] steps(chain)[i] == chain[i]@,
        views(shown).len() == shown.len(),
        forall|i: int| 0 <= i < shown.len() ==> #[trigger] views(shown)[i] == shown[i]@,
        actions(plan).len() == plan.len(),
        forall|i: int| 0 <= i < plan.len() ==> #[trigger] actions(plan)[i] == plan[i]@,
{
}

/// An action's model is the same action on the same seat or stream.
pub proof fn law_actions_are_modelled_as_they_stand(action: Action)
    ensures
        action matches Action::Declare(stream) ==> action@ == ActionModel::Declare(stream@),
        action matches Action::Withdraw(seat) ==> action@ == ActionModel::Withdraw(seat@),
        action matches Action::Join { seat, at } ==> action@ == (ActionModel::Join {
            seat: seat@,
            at,
        }),
        action matches Action::Forget(seat) ==> action@ == ActionModel::Forget(seat@),
{
}

/// A stream's model holds its name, its source and each destination, as they stand.
pub proof fn law_streams_are_modelled_as_they_stand(stream: StreamDefinition, end: StreamTransport)
    ensures
        stream@.name == stream.name@,
        stream@.enabled == stream.enabled,
        stream@.source == stream.source@,
        stream@.destinations.len() == stream.destinations@.len(),
        forall|i: int|
            0 <= i < stream.destinations@.len() ==> #[trigger] stream@.destinations[i]
                == stream.destinations@[i]@,
        end matches StreamTransport::Device { node, network } ==> end@ == (TransportModel::Device {
            node: node@,
            network: text_of(network),
        }),
        end matches StreamTransport::Srt { node, network, latency } ==> end@ == (
        TransportModel::Srt { node: node@, network: text_of(network), latency }),
{
}

/// The models of a request, a node and a refusal hold each of their fields.
pub proof fn law_requests_are_modelled_as_they_stand(
    call: Call,
    node: NodeDescriptor,
    error: ApiError,
)
    ensures
        call@.method == call.method,
        call@.url == call.url@,
        call@.bearer == text_of(call.bearer),
        node@.id == node.id@,
        node@.endpoint == node.endpoint@,
        node@.status == node.status,
        node@.transports == node.transports@,
        node@.devices == node.devices@,
        node@.host == node.host@,
        node@.reachability == node.reachability,
        error@.status == error.status,
        error@.message == error.message@,
{
}

} // verus!
